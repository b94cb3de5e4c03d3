//! Model lists fetched from OpenAI-compatible providers: which ids are kept
//! and in what order they are shown.

use crate::text::{contains_str, starts_with, chars_of};
use vstd::prelude::*;

verus! {

broadcast use vstd::seq_lib::group_to_multiset_ensures;

/// Strict lexicographic order by code point, which is the order of Rust's
/// `String` comparison (UTF-8 preserves code point order).
pub open spec fn lex_lt(a: Seq<char>, b: Seq<char>) -> bool
    decreases a.len(),
{
    if a.len() == 0 {
        b.len() > 0
    } else if b.len() == 0 {
        false
    } else if (a[0] as u32) != (b[0] as u32) {
        (a[0] as u32) < (b[0] as u32)
    } else {
        lex_lt(a.drop_first(), b.drop_first())
    }
}

/// `a` does not sort after `b`.
pub open spec fn lex_le(a: Seq<char>, b: Seq<char>) -> bool {
    !lex_lt(b, a)
}

proof fn lemma_lex_trans(a: Seq<char>, b: Seq<char>, c: Seq<char>)
    requires
        lex_lt(a, b),
        lex_lt(b, c),
    ensures
        lex_lt(a, c),
    decreases a.len(),
{
    if a.len() > 0 && b.len() > 0 && c.len() > 0 && (a[0] as u32) == (b[0] as u32) && (b[0] as u32)
        == (c[0] as u32) {
        lemma_lex_trans(a.drop_first(), b.drop_first(), c.drop_first());
    }
}

proof fn lemma_lex_asym(a: Seq<char>, b: Seq<char>)
    ensures
        !(lex_lt(a, b) && lex_lt(b, a)),
    decreases a.len(),
{
    if a.len() > 0 && b.len() > 0 && (a[0] as u32) == (b[0] as u32) {
        lemma_lex_asym(a.drop_first(), b.drop_first());
    }
}

/// `x < y` and `y <= z` give `x < z`.
proof fn lemma_lex_lt_le(x: Seq<char>, y: Seq<char>, z: Seq<char>)
    requires
        lex_lt(x, y),
        !lex_lt(z, y),
    ensures
        lex_lt(x, z),
    decreases x.len(),
{
    if x.len() > 0 && y.len() > 0 && z.len() > 0 && (x[0] as u32) == (y[0] as u32) && (z[0] as u32)
        == (y[0] as u32) {
        lemma_lex_lt_le(x.drop_first(), y.drop_first(), z.drop_first());
    }
}

/// `z <= y` and `y < x` give `z < x`.
proof fn lemma_lex_le_lt(z: Seq<char>, y: Seq<char>, x: Seq<char>)
    requires
        !lex_lt(y, z),
        lex_lt(y, x),
    ensures
        lex_lt(z, x),
    decreases z.len(),
{
    if z.len() > 0 && y.len() > 0 && x.len() > 0 && (x[0] as u32) == (y[0] as u32) && (z[0] as u32)
        == (y[0] as u32) {
        lemma_lex_le_lt(z.drop_first(), y.drop_first(), x.drop_first());
    }
}

/// Comparing from position `i` on, when the first `i` characters agree.
proof fn lemma_lex_skip(a: Seq<char>, b: Seq<char>, i: int)
    requires
        0 <= i <= a.len(),
        i <= b.len(),
        forall|t: int| 0 <= t < i ==> (a[t] as u32) == (b[t] as u32),
    ensures
        lex_lt(a, b) == lex_lt(a.skip(i), b.skip(i)),
    decreases i,
{
    if i > 0 {
        assert((a[0] as u32) == (b[0] as u32));
        assert forall|t: int| 0 <= t < i - 1 implies (a.drop_first()[t] as u32) == (
        b.drop_first()[t] as u32) by {
            assert(a.drop_first()[t] == a[t + 1]);
            assert(b.drop_first()[t] == b[t + 1]);
        }
        lemma_lex_skip(a.drop_first(), b.drop_first(), i - 1);
        assert(a.drop_first().skip(i - 1) =~= a.skip(i));
        assert(b.drop_first().skip(i - 1) =~= b.skip(i));
    } else {
        assert(a.skip(0) =~= a);
        assert(b.skip(0) =~= b);
    }
}

/// Whether `a` sorts strictly before `b`.
pub fn str_less(a: &str, b: &str) -> (r: bool)
    ensures
        r == lex_lt(a@, b@),
{
    let x = chars_of(a);
    let y = chars_of(b);
    let mut i: usize = 0;
    while i < x.len() && i < y.len()
        invariant
            x@ == a@,
            y@ == b@,
            i <= x@.len(),
            i <= y@.len(),
            forall|t: int| 0 <= t < i ==> (x@[t] as u32) == (y@[t] as u32),
        decreases x@.len() - i,
    {
        let cx = x[i] as u32;
        let cy = y[i] as u32;
        if cx != cy {
            proof {
                lemma_lex_skip(a@, b@, i as int);
                assert(a@.skip(i as int)[0] == x@[i as int]);
                assert(b@.skip(i as int)[0] == y@[i as int]);
            }
            return cx < cy;
        }
        i += 1;
    }
    proof {
        lemma_lex_skip(a@, b@, i as int);
    }
    x.len() == i && y.len() > i
}

/// The chat models among OpenAI's ids: GPT, o1, o3 and ChatGPT families.
pub open spec fn is_chat_model_id(id: Seq<char>) -> bool {
    "gpt-"@.is_prefix_of(id) || "o1"@.is_prefix_of(id) || "o3"@.is_prefix_of(id)
        || "chatgpt-"@.is_prefix_of(id)
}

/// The ids of `ids` that are chat models, in order.
pub open spec fn chat_ids(ids: Seq<Seq<char>>) -> Seq<Seq<char>>
    decreases ids.len(),
{
    if ids.len() == 0 {
        ids
    } else if is_chat_model_id(ids.last()) {
        chat_ids(ids.drop_last()).push(ids.last())
    } else {
        chat_ids(ids.drop_last())
    }
}

/// `s` is in the given order: ascending, or descending (newest first).
pub open spec fn is_ordered(s: Seq<Seq<char>>, descending: bool) -> bool {
    forall|i: int, j: int|
        0 <= i < j < s.len() ==> if descending {
            lex_le(s[j], s[i])
        } else {
            lex_le(s[i], s[j])
        }
}

pub open spec fn strings_view(v: Seq<String>) -> Seq<Seq<char>> {
    v.map_values(|s: String| s@)
}

/// Where `id` goes so that `out` stays ordered and equal ids keep their
/// arrival order: before the first element that must come after it.
fn insertion_point(out: &Vec<String>, id: &String, descending: bool) -> (j: usize)
    requires
        is_ordered(strings_view(out@), descending),
    ensures
        j <= out@.len(),
        forall|k: int|
            0 <= k < j ==> if descending {
                lex_le(id@, #[trigger] out@[k]@)
            } else {
                lex_le(out@[k]@, id@)
            },
        forall|k: int|
            j <= k < out@.len() ==> if descending {
                lex_lt(#[trigger] out@[k]@, id@)
            } else {
                lex_lt(id@, out@[k]@)
            },
{
    let mut j: usize = 0;
    while j < out.len()
        invariant
            j <= out@.len(),
            is_ordered(strings_view(out@), descending),
            forall|k: int|
                0 <= k < j ==> if descending {
                    lex_le(id@, #[trigger] out@[k]@)
                } else {
                    lex_le(out@[k]@, id@)
                },
        decreases out@.len() - j,
    {
        let after = if descending {
            str_less(out[j].as_str(), id.as_str())
        } else {
            str_less(id.as_str(), out[j].as_str())
        };
        if after {
            proof {
                assert forall|k: int| j <= k < out@.len() implies if descending {
                    lex_lt(#[trigger] out@[k]@, id@)
                } else {
                    lex_lt(id@, out@[k]@)
                } by {
                    if k > j {
                        assert(strings_view(out@)[j as int] == out@[j as int]@);
                        assert(strings_view(out@)[k] == out@[k]@);
                        let sv = strings_view(out@);
                        assert(if descending {
                            lex_le(sv[k], sv[j as int])
                        } else {
                            lex_le(sv[j as int], sv[k])
                        });
                        if descending {
                            lemma_lex_le_lt(out@[k]@, out@[j as int]@, id@);
                        } else {
                            lemma_lex_lt_le(id@, out@[j as int]@, out@[k]@);
                        }
                    }
                }
            }
            return j;
        }
        j += 1;
    }
    j
}

/// Keeps the chat models when the list comes from OpenAI (whose URL holds
/// `openai.com`) and orders them newest first (descending); any other
/// provider's list is kept whole in ascending order.
pub fn chat_model_ids(ids: Vec<String>, url: &str) -> (r: Vec<String>)
    ensures
        ({
            let from_openai = crate::text::has_substring(url@, "openai.com"@);
            let kept = if from_openai {
                chat_ids(strings_view(ids@))
            } else {
                strings_view(ids@)
            };
            &&& strings_view(r@).to_multiset() == kept.to_multiset()
            &&& is_ordered(strings_view(r@), from_openai)
        }),
{
    let from_openai = contains_str(url, "openai.com");
    let ghost all = strings_view(ids@);
    let ghost kept = if from_openai {
        chat_ids(all)
    } else {
        all
    };
    let mut out: Vec<String> = Vec::new();
    let mut rest = ids;
    let ghost mut k: int = 0;
    while rest.len() > 0
        invariant
            0 <= k <= all.len(),
            strings_view(rest@) == all.subrange(k, all.len() as int),
            kept == if from_openai {
                chat_ids(all)
            } else {
                all
            },
            strings_view(out@).to_multiset() == (if from_openai {
                chat_ids(all.subrange(0, k))
            } else {
                all.subrange(0, k)
            }).to_multiset(),
            is_ordered(strings_view(out@), from_openai),
        decreases rest@.len(),
    {
        let ghost before = rest@;
        proof {
            assert(strings_view(rest@).len() == rest@.len());
        }
        let id = rest.remove(0);
        proof {
            assert(strings_view(before)[0] == id@);
            assert(all[k] == id@);
            assert(all.subrange(0, k + 1).drop_last() =~= all.subrange(0, k));
            assert(all.subrange(0, k + 1).last() == id@);
            assert(all.subrange(0, k + 1) =~= all.subrange(0, k).push(id@));
        }
        let keep = !from_openai || starts_with(id.as_str(), "gpt-") || starts_with(id.as_str(), "o1")
            || starts_with(id.as_str(), "o3") || starts_with(id.as_str(), "chatgpt-");
        if keep {
            let j = insertion_point(&out, &id, from_openai);
            let ghost old_out = strings_view(out@);
            let ghost old_vec = out@;
            out.insert(j, id);
            proof {
                assert(strings_view(out@) =~= old_out.insert(j as int, id@));
                let s = strings_view(out@);
                let jj = j as int;
                assert forall|a: int, b: int| 0 <= a < b < s.len() implies if from_openai {
                    lex_le(s[b], s[a])
                } else {
                    lex_le(s[a], s[b])
                } by {
                    if a < jj {
                        assert(s[a] == old_out[a]);
                        assert(old_out[a] == old_vec[a]@);
                    }
                    if b > jj {
                        assert(s[b] == old_out[b - 1]);
                        assert(old_out[b - 1] == old_vec[b - 1]@);
                    }
                    if a < jj && b < jj {
                        assert(s[b] == old_out[b]);
                        assert(old_out[b] == old_vec[b]@);
                    } else if a < jj && b == jj {
                    } else if a < jj && b > jj {
                        if from_openai {
                            if lex_lt(s[a], s[b]) {
                                lemma_lex_trans(s[a], s[b], id@);
                            }
                        } else {
                            if lex_lt(s[b], s[a]) {
                                lemma_lex_trans(id@, s[b], s[a]);
                            }
                        }
                    } else if a == jj {
                        lemma_lex_asym(s[b], id@);
                    } else {
                        assert(s[a] == old_out[a - 1]);
                    }
                }
            }
        }
        proof {
            assert(rest@ =~= before.remove(0));
            assert forall|t: int| 0 <= t < strings_view(rest@).len() implies strings_view(rest@)[t]
                == all.subrange(k + 1, all.len() as int)[t] by {
                assert(rest@[t] == before[t + 1]);
                assert(strings_view(before)[t + 1] == all[k + t + 1]);
            }
            assert(strings_view(rest@) =~= all.subrange(k + 1, all.len() as int));
            k = k + 1;
        }
    }
    proof {
        assert(all.subrange(0, k) =~= all);
    }
    out
}

/// From an OpenAI listing exactly the chat families are kept: an id stays
/// when it was listed and starts with `gpt-`, `o1`, `o3` or `chatgpt-`;
/// every other id (embeddings, moderation, audio, images) is dropped.
pub proof fn lemma_openai_keeps_chat_families(ids: Seq<Seq<char>>, id: Seq<char>)
    ensures
        chat_ids(ids).contains(id) <==> ids.contains(id) && ("gpt-"@.is_prefix_of(id)
            || "o1"@.is_prefix_of(id) || "o3"@.is_prefix_of(id) || "chatgpt-"@.is_prefix_of(id)),
    decreases ids.len(),
{
    if ids.len() > 0 {
        let p = ids.drop_last();
        lemma_openai_keeps_chat_families(p, id);
        assert(ids =~= p.push(ids.last()));
        assert(ids[ids.len() - 1] == ids.last());
        if p.contains(id) {
            let w = choose|w: int| 0 <= w < p.len() && #[trigger] p[w] == id;
            assert(ids[w] == id);
        }
        if ids.contains(id) {
            let w = choose|w: int| 0 <= w < ids.len() && #[trigger] ids[w] == id;
            if w < p.len() {
                assert(p[w] == id);
            }
        }
        let c = chat_ids(p);
        if is_chat_model_id(ids.last()) {
            let c2 = c.push(ids.last());
            assert(c2[c.len() as int] == ids.last());
            if c.contains(id) {
                let w = choose|w: int| 0 <= w < c.len() && #[trigger] c[w] == id;
                assert(c2[w] == id);
            }
            if c2.contains(id) {
                let w = choose|w: int| 0 <= w < c2.len() && #[trigger] c2[w] == id;
                if w < c.len() {
                    assert(c[w] == id);
                }
            }
        }
    }
}

} // verus!

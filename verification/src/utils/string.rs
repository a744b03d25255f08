//! Pure text splicing: locating a delimited block inside an opaque document
//! and inserting a block just inside a brace-delimited anchor region.
#![allow(unused_imports)]
use vstd::prelude::*;

verus! {

use vstd::string::StrSliceExecFns;
use vstd::string::StringExecFns;

/// The pattern `p` occurs in `t` at position `i`.
pub open spec fn match_at(t: Seq<char>, p: Seq<char>, i: int) -> bool {
    0 <= i && i + p.len() <= t.len() && t.subrange(i, i + p.len() as int) == p
}

/// Position of the first occurrence of `p` in `t` at or after `i`, if any.
pub open spec fn first_match_from(t: Seq<char>, p: Seq<char>, i: int) -> Option<int>
    decreases t.len() - i + 1,
{
    if i < 0 || i + p.len() > t.len() {
        None
    } else if match_at(t, p, i) {
        Some(i)
    } else {
        first_match_from(t, p, i + 1)
    }
}

/// Position of the first occurrence of `p` in `t`, if any.
pub open spec fn first_match(t: Seq<char>, p: Seq<char>) -> Option<int> {
    first_match_from(t, p, 0)
}

pub proof fn lemma_first_match_from_some(t: Seq<char>, p: Seq<char>, i: int, k: int)
    requires
        first_match_from(t, p, i) == Some(k),
    ensures
        i <= k,
        match_at(t, p, k),
        forall|j: int| i <= j < k ==> !match_at(t, p, j),
    decreases t.len() - i + 1,
{
    if i < 0 || i + p.len() > t.len() {
    } else if match_at(t, p, i) {
    } else {
        lemma_first_match_from_some(t, p, i + 1, k);
    }
}

pub proof fn lemma_first_match_from_found(t: Seq<char>, p: Seq<char>, i: int, k: int)
    requires
        0 <= i <= k,
        match_at(t, p, k),
        forall|j: int| i <= j < k ==> !match_at(t, p, j),
    ensures
        first_match_from(t, p, i) == Some(k),
    decreases t.len() - i + 1,
{
    if i < k {
        lemma_first_match_from_found(t, p, i + 1, k);
    }
}

/// Whether `p` occurs in `t` at position `i`, checked character by character.
fn match_at_exec(t: &str, p: &str, i: usize, t_len: usize, p_len: usize) -> (r: bool)
    requires
        t_len == t@.len(),
        p_len == p@.len(),
        i + p_len <= t_len,
    ensures
        r == match_at(t@, p@, i as int),
{
    let mut k: usize = 0;
    while k < p_len
        invariant
            k <= p_len,
            t_len == t@.len(),
            p_len == p@.len(),
            i + p_len <= t_len,
            forall|j: int| 0 <= j < k ==> t@[i + j] == p@[j],
        decreases p_len - k,
    {
        if t.get_char(i + k) != p.get_char(k) {
            proof {
                assert(t@.subrange(i as int, i + p@.len() as int)[k as int] != p@[k as int]);
            }
            return false;
        }
        k += 1;
    }
    proof {
        assert(t@.subrange(i as int, i + p@.len() as int) =~= p@);
    }
    true
}

/// Position of the first occurrence of `pattern` in `text`, if any.
pub fn find(text: &str, pattern: &str) -> (r: Option<usize>)
    ensures
        match r {
            Some(i) => first_match(text@, pattern@) == Some(i as int),
            None => first_match(text@, pattern@) is None,
        },
{
    let t_len = text.unicode_len();
    let p_len = pattern.unicode_len();
    if p_len > t_len {
        return None;
    }
    let last = t_len - p_len;
    let mut i: usize = 0;
    loop
        invariant
            i <= last + 1,
            last == t_len - p_len,
            t_len == text@.len(),
            p_len == pattern@.len(),
            p_len <= t_len,
            first_match(text@, pattern@) == first_match_from(text@, pattern@, i as int),
        decreases last + 1 - i,
    {
        if i > last {
            return None;
        }
        if match_at_exec(text, pattern, i, t_len, p_len) {
            return Some(i);
        }
        proof {
            if pattern@.len() == 0 {
                assert(text@.subrange(i as int, i as int) =~= pattern@);
            }
        }
        i += 1;
    }
}

/// What `outside` returns: the document up to and including the first
/// occurrence of `start`, and the document from the first occurrence of
/// `end` after that point onward; `None` if either marker is absent.
pub open spec fn outside_spec(doc: Seq<char>, start: Seq<char>, end: Seq<char>) -> Option<
    (Seq<char>, Seq<char>),
> {
    match first_match(doc, start) {
        None => None,
        Some(i) => {
            let split = i + start.len() as int;
            match first_match(doc.subrange(split, doc.len() as int), end) {
                None => None,
                Some(j) => Some(
                    (doc.subrange(0, split), doc.subrange(split + j, doc.len() as int)),
                ),
            }
        },
    }
}

/// Splits `document` around the first delimited region: the prefix runs up to
/// and including the first occurrence of `start`, the suffix runs from the
/// first occurrence of `end` after it (inclusive) to the end of the document.
/// Returns `None` when the start marker is absent, and `None` when the start
/// marker is present but the end marker does not occur after it.
pub fn outside(document: &str, start: &str, end: &str) -> (r: Option<(String, String)>)
    ensures
        match r {
            Some(p) => outside_spec(document@, start@, end@) == Some((p.0@, p.1@)),
            None => outside_spec(document@, start@, end@) is None,
        },
{
    let doc_len = document.unicode_len();
    let start_len = start.unicode_len();
    match find(document, start) {
        None => None,
        Some(i) => {
            proof {
                lemma_first_match_from_some(document@, start@, 0, i as int);
            }
            let split = i + start_len;
            let tail = document.substring_char(split, doc_len);
            match find(tail, end) {
                None => None,
                Some(j) => {
                    proof {
                        lemma_first_match_from_some(tail@, end@, 0, j as int);
                    }
                    let before = document.substring_char(0, split);
                    let after = document.substring_char(split + j, doc_len);
                    Some((String::from_str(before), String::from_str(after)))
                },
            }
        },
    }
}

/// The split fails when the start marker is absent from the document.
pub proof fn lemma_outside_none_without_start(doc: Seq<char>, start: Seq<char>, end: Seq<char>)
    requires
        first_match(doc, start) is None,
    ensures
        outside_spec(doc, start, end) is None,
{
}

/// The split fails when the start marker is present but the end marker does
/// not occur after it.
pub proof fn lemma_outside_none_without_end(
    doc: Seq<char>,
    start: Seq<char>,
    end: Seq<char>,
    i: int,
)
    requires
        first_match(doc, start) == Some(i),
        first_match(doc.subrange(i + start.len(), doc.len() as int), end) is None,
    ensures
        outside_spec(doc, start, end) is None,
{
}

/// Where `insert_pos` points: one past the first `{` that follows the first
/// occurrence of `anchor`; `None` if the anchor is absent or no `{` follows.
pub open spec fn insert_pos(doc: Seq<char>, anchor: Seq<char>) -> Option<int> {
    match first_match(doc, anchor) {
        None => None,
        Some(i) => {
            let split = i + anchor.len() as int;
            match first_match(doc.subrange(split, doc.len() as int), seq!['{']) {
                None => None,
                Some(j) => Some(split + j + 1),
            }
        },
    }
}

/// What `add_user_config` returns: the document with `ins` spliced in at the
/// insertion point, or `None` when no insertion point exists.
pub open spec fn add_user_config_spec(doc: Seq<char>, anchor: Seq<char>, ins: Seq<char>) -> Option<
    Seq<char>,
> {
    match insert_pos(doc, anchor) {
        None => None,
        Some(p) => Some(doc.subrange(0, p) + ins + doc.subrange(p, doc.len() as int)),
    }
}

/// When the anchor is present with a following `{`, insertion succeeds, the
/// result is exactly the inserted text's length longer than the document, and
/// the document up to and including that brace is unchanged.
pub proof fn lemma_insert_preserves_prefix(doc: Seq<char>, anchor: Seq<char>, ins: Seq<char>)
    requires
        insert_pos(doc, anchor) is Some,
    ensures
        add_user_config_spec(doc, anchor, ins) is Some,
        add_user_config_spec(doc, anchor, ins).unwrap().len() == doc.len() + ins.len(),
        add_user_config_spec(doc, anchor, ins).unwrap().subrange(
            0,
            insert_pos(doc, anchor).unwrap(),
        ) == doc.subrange(0, insert_pos(doc, anchor).unwrap()),
{
    let p = insert_pos(doc, anchor).unwrap();
    let i = first_match(doc, anchor).unwrap();
    let split = i + anchor.len() as int;
    lemma_first_match_from_some(doc, anchor, 0, i);
    let tail = doc.subrange(split, doc.len() as int);
    let j = first_match(tail, seq!['{']).unwrap();
    lemma_first_match_from_some(tail, seq!['{'], 0, j);
    assert(0 <= p <= doc.len());
    let res = add_user_config_spec(doc, anchor, ins).unwrap();
    assert(res.subrange(0, p) =~= doc.subrange(0, p));
}

/// Idempotent boundary detection: in a document holding exactly one marker
/// pair, replacing the interior between the markers and locating again with
/// the same markers yields the same prefix and suffix. The premise on the
/// interior says precisely that the replacement introduces no end marker of
/// its own before the original one.
pub proof fn lemma_outside_idempotent(
    doc: Seq<char>,
    start: Seq<char>,
    end: Seq<char>,
    interior: Seq<char>,
)
    requires
        outside_spec(doc, start, end) is Some,
        forall|k: int|
            0 <= k < interior.len() ==> !match_at(
                interior + outside_spec(doc, start, end).unwrap().1,
                end,
                k,
            ),
    ensures
        outside_spec(
            outside_spec(doc, start, end).unwrap().0 + interior + outside_spec(
                doc,
                start,
                end,
            ).unwrap().1,
            start,
            end,
        ) == outside_spec(doc, start, end),
{
    let before = outside_spec(doc, start, end).unwrap().0;
    let after = outside_spec(doc, start, end).unwrap().1;
    let i = first_match(doc, start).unwrap();
    let split = i + start.len() as int;
    lemma_first_match_from_some(doc, start, 0, i);
    let tail = doc.subrange(split, doc.len() as int);
    let j = first_match(tail, end).unwrap();
    lemma_first_match_from_some(tail, end, 0, j);
    assert(before == doc.subrange(0, split));
    assert(after == doc.subrange(split + j, doc.len() as int));
    let doc2 = before + interior + after;

    // The start marker still first occurs at `i`.
    assert(doc2.subrange(i, i + start.len() as int) =~= doc.subrange(i, split));
    assert(doc.subrange(i, split) =~= start) by {
        assert(match_at(doc, start, i));
    }
    assert(match_at(doc2, start, i));
    assert forall|k: int| 0 <= k < i implies !match_at(doc2, start, k) by {
        if match_at(doc2, start, k) {
            assert(doc2.subrange(k, k + start.len() as int) =~= doc.subrange(
                k,
                k + start.len() as int,
            ));
            assert(match_at(doc, start, k));
        }
    }
    lemma_first_match_from_found(doc2, start, 0, i);

    // The end marker first occurs right after the new interior.
    let tail2 = doc2.subrange(split, doc2.len() as int);
    assert(tail2 =~= interior + after);
    assert(match_at(tail, end, j));
    assert(tail2.subrange(interior.len() as int, interior.len() + end.len() as int)
        =~= tail.subrange(j, j + end.len() as int));
    assert(match_at(tail2, end, interior.len() as int));
    lemma_first_match_from_found(tail2, end, 0, interior.len() as int);

    // The located prefix and suffix are the original ones.
    assert(doc2.subrange(0, split) =~= before);
    assert(doc2.subrange(split + interior.len(), doc2.len() as int) =~= after);
}

/// Inserts `insert` immediately after the first `{` that follows the first
/// occurrence of `user_config_start`. The anchor denotes a structural opening
/// and the first brace after it is that region's opening delimiter, so the
/// insertion lands just inside it. Returns `None` when the anchor is absent,
/// and `None` when the anchor is present but no `{` follows it.
pub fn add_user_config(document: &str, user_config_start: &str, insert: &str) -> (r: Option<
    String,
>)
    ensures
        match r {
            Some(s) => add_user_config_spec(document@, user_config_start@, insert@) == Some(s@),
            None => add_user_config_spec(document@, user_config_start@, insert@) is None,
        },
{
    proof {
        reveal_strlit("{");
        assert("{"@ =~= seq!['{']);
    }
    let doc_len = document.unicode_len();
    let anchor_len = user_config_start.unicode_len();
    match find(document, user_config_start) {
        None => None,
        Some(i) => {
            proof {
                lemma_first_match_from_some(document@, user_config_start@, 0, i as int);
            }
            let split = i + anchor_len;
            let tail = document.substring_char(split, doc_len);
            match find(tail, "{") {
                None => None,
                Some(j) => {
                    proof {
                        lemma_first_match_from_some(tail@, "{"@, 0, j as int);
                    }
                    let pos = split + j + 1;
                    let mut result = String::from_str(document.substring_char(0, pos));
                    result.append(insert);
                    result.append(document.substring_char(pos, doc_len));
                    Some(result)
                },
            }
        },
    }
}

} // verus!

//! Maintains a controller assignment for a fleet of remotely managed nodes:
//! pure text splicing of a delimited controller block inside a configuration
//! document, and a cache of the last successfully applied decision per node.
#![allow(unused_imports)]
use vstd::prelude::*;

pub mod reconcile;
pub mod utils;

pub use utils::error::Error;
pub use utils::error::XnodeControllerError;
pub use utils::error::XnodeControllerErrorInner;

verus! {

use vstd::string::StringExecFns;
use crate::utils::error::XnodeControllerError as ControllerError;
use crate::utils::error::XnodeControllerErrorInner as ControllerErrorInner;
use crate::utils::string::add_user_config;
use crate::utils::string::add_user_config_spec;
use crate::utils::string::first_match;
use crate::utils::string::insert_pos;
use crate::utils::string::match_at;
use crate::utils::string::outside;
use crate::utils::string::outside_spec;

/// The marker opening a node's controller block.
pub open spec fn spec_block_start(id: Seq<char>) -> Seq<char> {
    "# START XNODE CONTROLLER "@ + id
}

/// The marker closing a node's controller block.
pub open spec fn spec_block_end(id: Seq<char>) -> Seq<char> {
    "# END XNODE CONTROLLER "@ + id
}

/// The anchor after whose first following `{` a fresh block is inserted.
pub open spec fn spec_user_config_anchor() -> Seq<char> {
    "# START USER CONFIG"@
}

/// The text inserted when no controller block exists yet: a blank line, the
/// start marker, the fragment, the end marker, and a blank line, placed just
/// inside the user-config region.
pub open spec fn spec_fresh_block(id: Seq<char>, fragment: Seq<char>) -> Seq<char> {
    "\n\n"@ + spec_block_start(id) + "\n"@ + fragment + "\n"@ + spec_block_end(id) + "\n"@
}

/// The updated document: if a controller block for `id` exists, its interior
/// is replaced by the fragment (wrapped in newlines); otherwise a fresh block
/// is inserted just inside the user-config region; `None` when neither a
/// block nor the anchor-with-brace exists.
pub open spec fn spec_new_os_config(doc: Seq<char>, id: Seq<char>, fragment: Seq<char>) -> Option<
    Seq<char>,
> {
    match outside_spec(doc, spec_block_start(id), spec_block_end(id)) {
        Some(parts) => Some(parts.0 + "\n"@ + fragment + "\n"@ + parts.1),
        None => add_user_config_spec(doc, spec_user_config_anchor(), spec_fresh_block(id, fragment)),
    }
}

/// Round trip: a document with no controller block gains one for a first
/// decision, and applying a different decision afterwards replaces only that
/// block's interior — the document up to the insertion point, the user-config
/// anchor included, stays byte-identical. The quantified premises say that
/// the updated document holds exactly one marker pair: no start marker occurs
/// before the inserted one, and no end marker before the inserted one.
pub proof fn lemma_round_trip(
    doc: Seq<char>,
    id: Seq<char>,
    f1: Seq<char>,
    f2: Seq<char>,
    p: int,
    doc1: Seq<char>,
)
    requires
        outside_spec(doc, spec_block_start(id), spec_block_end(id)) is None,
        insert_pos(doc, spec_user_config_anchor()) == Some(p),
        doc1 == add_user_config_spec(
            doc,
            spec_user_config_anchor(),
            spec_fresh_block(id, f1),
        ).unwrap(),
        forall|k: int| 0 <= k < p + 2 ==> !match_at(doc1, spec_block_start(id), k),
        forall|k: int|
            0 <= k < f1.len() + 2 ==> !(#[trigger] match_at(
                doc1.subrange(p + 2 + spec_block_start(id).len(), doc1.len() as int),
                spec_block_end(id),
                k,
            )),
    ensures
        spec_new_os_config(doc, id, f1) == Some(doc1),
        doc1 == doc.subrange(0, p) + "\n\n"@ + spec_block_start(id) + "\n"@ + f1 + "\n"@
            + spec_block_end(id) + "\n"@ + doc.subrange(p, doc.len() as int),
        spec_new_os_config(doc1, id, f2) == Some(
            doc.subrange(0, p) + "\n\n"@ + spec_block_start(id) + "\n"@ + f2 + "\n"@
                + spec_block_end(id) + "\n"@ + doc.subrange(p, doc.len() as int),
        ),
{
    let sm = spec_block_start(id);
    let em = spec_block_end(id);
    let anchor = spec_user_config_anchor();
    let ins = spec_fresh_block(id, f1);
    let i = first_match(doc, anchor).unwrap();
    let split = i + anchor.len() as int;
    crate::utils::string::lemma_first_match_from_some(doc, anchor, 0, i);
    let tail = doc.subrange(split, doc.len() as int);
    let j = first_match(tail, seq!['{']).unwrap();
    crate::utils::string::lemma_first_match_from_some(tail, seq!['{'], 0, j);
    assert(0 <= p <= doc.len());

    let prefix = doc.subrange(0, p);
    let suffix = doc.subrange(p, doc.len() as int);
    assert(doc1 == prefix + ins + suffix);

    let slen = sm.len() as int;
    let elen = em.len() as int;
    let split1 = p + 2 + slen;
    reveal_strlit("\n");
    reveal_strlit("\n\n");
    assert(ins.len() == slen + elen + f1.len() + 5);
    assert(doc1.len() == doc.len() + ins.len());
    assert(doc1 =~= prefix + "\n\n"@ + sm + "\n"@ + f1 + "\n"@ + em + "\n"@ + suffix);

    assert(ins.subrange(2, 2 + slen) =~= sm);
    assert(doc1.subrange(p + 2, p + 2 + slen) =~= ins.subrange(2, 2 + slen));
    assert(match_at(doc1, sm, p + 2));
    crate::utils::string::lemma_first_match_from_found(doc1, sm, 0, p + 2);

    let tail1 = doc1.subrange(split1, doc1.len() as int);
    assert(tail1 =~= "\n"@ + f1 + "\n"@ + em + "\n"@ + suffix);
    assert(ins.subrange(2 + slen + 1 + f1.len() + 1, 2 + slen + 1 + f1.len() + 1 + elen) =~= em);
    assert(tail1.subrange(f1.len() as int + 2, f1.len() + 2 + elen) =~= ins.subrange(
        2 + slen + 1 + f1.len() + 1,
        2 + slen + 1 + f1.len() + 1 + elen,
    ));
    assert(match_at(tail1, em, f1.len() as int + 2));
    crate::utils::string::lemma_first_match_from_found(tail1, em, 0, f1.len() as int + 2);

    let before1 = doc1.subrange(0, split1);
    let after1 = doc1.subrange(split1 + f1.len() + 2, doc1.len() as int);
    assert(outside_spec(doc1, sm, em) == Some((before1, after1)));
    assert(before1 =~= prefix + "\n\n"@ + sm);
    assert(after1 =~= em + "\n"@ + suffix);
    assert(before1 + "\n"@ + f2 + "\n"@ + after1 =~= prefix + "\n\n"@ + sm + "\n"@ + f2 + "\n"@ + em
        + "\n"@ + suffix);
}

/// The start marker of the controller block belonging to `xnode_id`.
pub fn os_block_start(xnode_id: &str) -> (r: String)
    ensures
        r@ == spec_block_start(xnode_id@),
{
    let mut s = String::from_str("# START XNODE CONTROLLER ");
    s.append(xnode_id);
    s
}

/// The end marker of the controller block belonging to `xnode_id`.
pub fn os_block_end(xnode_id: &str) -> (r: String)
    ensures
        r@ == spec_block_end(xnode_id@),
{
    let mut s = String::from_str("# END XNODE CONTROLLER ");
    s.append(xnode_id);
    s
}

/// Computes the configuration document that designates `fragment` as the
/// controller block of `xnode_id`: the existing block's interior is replaced,
/// or a fresh block is inserted just inside the user-config region. Fails
/// with `NoUserConfig` exactly when the document offers no insertion point.
pub fn new_os_config(current: &str, xnode_id: &str, fragment: &str) -> (r: Result<
    String,
    XnodeControllerError,
>)
    ensures
        match r {
            Ok(s) => spec_new_os_config(current@, xnode_id@, fragment@) == Some(s@),
            Err(e) => spec_new_os_config(current@, xnode_id@, fragment@) is None && e.inner()
                is NoUserConfig,
        },
{
    let start = os_block_start(xnode_id);
    let end = os_block_end(xnode_id);
    match outside(current, start.as_str(), end.as_str()) {
        Some(parts) => {
            let mut s = parts.0;
            s.append("\n");
            s.append(fragment);
            s.append("\n");
            s.append(parts.1.as_str());
            Ok(s)
        },
        None => {
            let mut ins = String::from_str("\n\n");
            ins.append(start.as_str());
            ins.append("\n");
            ins.append(fragment);
            ins.append("\n");
            ins.append(end.as_str());
            ins.append("\n");
            match add_user_config(current, "# START USER CONFIG", ins.as_str()) {
                Some(s) => Ok(s),
                None => Err(ControllerError::new(ControllerErrorInner::NoUserConfig)),
            }
        },
    }
}

} // verus!

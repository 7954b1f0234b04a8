//! Approval of documents: the checks on a status change, what the change
//! writes into the frontmatter (with the hash of the approved body), and
//! the verdicts on documents that must be approved before work goes on.
use crate::text::{chars_of, decimal, fmt_u64, lemma_chars_deep_view, push_all, push_str, str_eq, string_of};
use crate::tool::command_ops::{lemma_split_pieces_len, split_at_any};
use crate::tool::doc_tools::{id_prefix, is_must_approve_type, must_approve_type};
use crate::tool::documents::{append_note_entry, appended_notes, meta_view, DocMeta};
use crate::tool::output::{refuses, Refusal};
use sha2::{Digest, Sha256};
use vstd::prelude::*;

verus! {

/// The lowercase hexadecimal SHA-256 digest of the UTF-8 bytes of `body`.
pub uninterp spec fn sha256_hex_of(body: Seq<char>) -> Seq<char>;

/// Hashes the UTF-8 bytes of `body` with `sha2::Sha256` and renders the
/// digest in lowercase hexadecimal. The contract names the result; the
/// hash function is not restated.
#[verifier::external_body]
fn sha256_hex(body: &str) -> (r: String)
    ensures
        r@ == sha256_hex_of(body@),
{
    let mut hasher = Sha256::new();
    hasher.update(body.as_bytes());
    format!("{:x}", hasher.finalize())
}

/// The checks on a status change: an id and a status, and a status of
/// `approved` or `rejected`.
pub fn check_status_request(id: &str, status: &str) -> (r: Result<(), Refusal>)
    ensures
        (id@.len() == 0 || status@.len() == 0) ==> refuses(
            r,
            "empty_params"@,
            "id and status cannot be empty"@,
        ),
        id@.len() > 0 && status@.len() > 0 && status@ != "approved"@ && status@ != "rejected"@
            ==> refuses(r, "invalid_status"@, "status must be approved or rejected"@),
        id@.len() > 0 && (status@ == "approved"@ || status@ == "rejected"@) ==> r is Ok,
{
    proof {
        reveal_strlit("approved");
        reveal_strlit("rejected");
    }
    let iv = chars_of(id);
    let sv = chars_of(status);
    if iv.len() == 0 || sv.len() == 0 {
        return Err(Refusal::new("empty_params", "id and status cannot be empty"));
    }
    if !(str_eq(status, "approved") || str_eq(status, "rejected")) {
        return Err(Refusal::new("invalid_status", "status must be approved or rejected"));
    }
    Ok(())
}

/// The note a status change adds: an automatic approval records the
/// number of rounds waited; otherwise the emperor's note, when there is one.
pub open spec fn status_note(status: Seq<char>, auto: bool, retries: u64, note: Seq<char>, ts: Seq<char>) -> Option<
    Seq<char>,
> {
    if auto {
        Some("[auto_approved @"@ + ts + "] 超时自动放行（内阁连续 "@ + decimal(retries as nat) + " 轮未请示）"@)
    } else if note.len() > 0 {
        Some("朱批["@ + status + " @"@ + ts + "]: "@ + note)
    } else {
        None
    }
}

/// Sets the approval status of a plan or review: records the note, the
/// status and the time, and the hash of the body when approved (cleared
/// otherwise). Only plans and reviews take an approval status. Gives the message.
pub fn apply_status(
    meta: &mut DocMeta,
    id: &str,
    body: &str,
    new_status: &str,
    auto: bool,
    retries: u64,
    emperor_note: &str,
    ts: &str,
) -> (r: Result<String, Refusal>)
    ensures
        !must_approve_type(old(meta).doc_type@) ==> refuses(
            r,
            "wrong_type"@,
            "Only plan and revw document types can have approval status set"@,
        ) && *final(meta) == *old(meta),
        must_approve_type(old(meta).doc_type@) ==> {
            &&& r matches Ok(m) && m@ == "Document "@ + id@ + " status set to "@ + new_status@
            &&& meta_view(*final(meta)) == (
                old(meta).id@,
                old(meta).doc_type@,
                old(meta).author@,
                ts@,
                old(meta).refs@,
                new_status@,
                match status_note(new_status@, auto, retries, emperor_note@, ts@) {
                    Some(n) => appended_notes(old(meta).notes@, n),
                    None => old(meta).notes@,
                },
                if new_status@ == "approved"@ {
                    sha256_hex_of(body@)
                } else {
                    ""@
                },
            )
        },
{
    if !is_must_approve_type(meta.doc_type.as_str()) {
        return Err(
            Refusal::new("wrong_type", "Only plan and revw document types can have approval status set"),
        );
    }
    let nv = chars_of(emperor_note);
    if auto {
        let mut line = chars_of("[auto_approved @");
        push_str(&mut line, ts);
        push_str(&mut line, "] 超时自动放行（内阁连续 ");
        let d = fmt_u64(retries);
        push_all(&mut line, d.as_slice());
        push_str(&mut line, " 轮未请示）");
        let ls = string_of(line.as_slice());
        meta.notes = append_note_entry(meta.notes.as_str(), ls.as_str());
    } else if nv.len() > 0 {
        let mut line = chars_of("朱批[");
        push_str(&mut line, new_status);
        push_str(&mut line, " @");
        push_str(&mut line, ts);
        push_str(&mut line, "]: ");
        push_str(&mut line, emperor_note);
        let ls = string_of(line.as_slice());
        meta.notes = append_note_entry(meta.notes.as_str(), ls.as_str());
    }
    let sv = chars_of(new_status);
    meta.status = string_of(sv.as_slice());
    let tv = chars_of(ts);
    meta.timestamp = string_of(tv.as_slice());
    if str_eq(new_status, "approved") {
        meta.approved_hash = sha256_hex(body);
    } else {
        let e = chars_of("");
        meta.approved_hash = string_of(e.as_slice());
    }
    let mut m = chars_of("Document ");
    push_str(&mut m, id);
    push_str(&mut m, " status set to ");
    push_str(&mut m, new_status);
    Ok(string_of(m.as_slice()))
}

// ───────────────────────── approval before routing ─────────────────────────

/// A document of this id must be approved before work that builds on it
/// goes on: its type prefix (before the first `_`) is a must-approve type.
pub open spec fn must_approve_id(id: Seq<char>) -> bool {
    must_approve_type(id_prefix(id))
}

/// Whether a document of this id must be approved (see [`must_approve_id`]).
pub fn is_must_approve_id(id: &str) -> (r: bool)
    ensures
        r == must_approve_id(id@),
{
    let iv = chars_of(id);
    let seps = vec!['_'];
    let pieces = split_at_any(iv.as_slice(), seps.as_slice());
    proof {
        assert(seps@ =~= seq!['_']);
        lemma_split_pieces_len(iv@, seq!['_']);
        lemma_chars_deep_view(pieces@[0]);
    }
    let f = string_of(pieces[0].as_slice());
    is_must_approve_type(f.as_str())
}

/// Whether a status holds work back: still waiting for approval, or rejected.
pub open spec fn holds_back(status: Seq<char>) -> bool {
    status == "in_review"@ || status == "rejected"@
}

/// The refusal for the document a route is about: a plan or review still waiting
/// for approval, or rejected, holds the route back.
pub open spec fn subject_refusal(subject_id: Seq<char>, doc_type: Seq<char>, status: Seq<char>) -> Option<
    Seq<char>,
> {
    if must_approve_type(doc_type) && status == "in_review"@ {
        Some(
            "Document "@ + subject_id
                + " is still awaiting emperor approval (status: in_review). Please handle the approval first."@,
        )
    } else if must_approve_type(doc_type) && status == "rejected"@ {
        Some(
            "Document "@ + subject_id
                + " has been rejected (status: rejected). Please address the rejection feedback first."@,
        )
    } else {
        None
    }
}

/// The refusal for a must-approve document that the route's subject names.
pub open spec fn reference_refusal(subject_id: Seq<char>, ref_id: Seq<char>, status: Seq<char>) -> Option<
    Seq<char>,
> {
    if status == "in_review"@ {
        Some(
            "Document "@ + subject_id + " references "@ + ref_id
                + ", which is still awaiting emperor approval (status: in_review). Please handle the approval first."@,
        )
    } else if status == "rejected"@ {
        Some(
            "Document "@ + subject_id + " references "@ + ref_id
                + ", which has been rejected (status: rejected). Please address the rejection feedback first."@,
        )
    } else {
        None
    }
}

/// The verdict on the document a route is about (see [`subject_refusal`]).
pub fn subject_verdict(subject_id: &str, doc_type: &str, status: &str) -> (r: Result<(), String>)
    ensures
        match subject_refusal(subject_id@, doc_type@, status@) {
            Some(e) => r matches Err(m) && m@ == e,
            None => r is Ok,
        },
{
    if is_must_approve_type(doc_type) {
        if str_eq(status, "in_review") {
            let mut m = chars_of("Document ");
            push_str(&mut m, subject_id);
            push_str(
                &mut m,
                " is still awaiting emperor approval (status: in_review). Please handle the approval first.",
            );
            return Err(string_of(m.as_slice()));
        }
        if str_eq(status, "rejected") {
            let mut m = chars_of("Document ");
            push_str(&mut m, subject_id);
            push_str(
                &mut m,
                " has been rejected (status: rejected). Please address the rejection feedback first.",
            );
            return Err(string_of(m.as_slice()));
        }
    }
    Ok(())
}

/// The verdict on a must-approve document that the subject names (see
/// [`reference_refusal`]).
pub fn reference_verdict(subject_id: &str, ref_id: &str, status: &str) -> (r: Result<(), String>)
    ensures
        match reference_refusal(subject_id@, ref_id@, status@) {
            Some(e) => r matches Err(m) && m@ == e,
            None => r is Ok,
        },
{
    if str_eq(status, "in_review") {
        let mut m = chars_of("Document ");
        push_str(&mut m, subject_id);
        push_str(&mut m, " references ");
        push_str(&mut m, ref_id);
        push_str(
            &mut m,
            ", which is still awaiting emperor approval (status: in_review). Please handle the approval first.",
        );
        return Err(string_of(m.as_slice()));
    }
    if str_eq(status, "rejected") {
        let mut m = chars_of("Document ");
        push_str(&mut m, subject_id);
        push_str(&mut m, " references ");
        push_str(&mut m, ref_id);
        push_str(
            &mut m,
            ", which has been rejected (status: rejected). Please address the rejection feedback first.",
        );
        return Err(string_of(m.as_slice()));
    }
    Ok(())
}

/// The message for a reference that names no document: `subject` names
/// `target` directly, or (with `indirect`) through a document it names.
pub open spec fn dangling_text(subject_id: Seq<char>, target: Seq<char>, indirect: bool) -> Seq<char> {
    "断链：文档 "@ + subject_id + (if indirect {
        " 间接引用的 "@
    } else {
        " 引用的 "@
    }) + target + " 不存在"@
}

/// The message for a reference that names no document (see [`dangling_text`]).
pub fn dangling_ref_message(subject_id: &str, target: &str, indirect: bool) -> (r: String)
    ensures
        r@ == dangling_text(subject_id@, target@, indirect),
{
    let mut m = chars_of("断链：文档 ");
    push_str(&mut m, subject_id);
    if indirect {
        push_str(&mut m, " 间接引用的 ");
    } else {
        push_str(&mut m, " 引用的 ");
    }
    push_str(&mut m, target);
    push_str(&mut m, " 不存在");
    string_of(m.as_slice())
}

// ───────────────────────── the route gate ─────────────────────────

/// What reading a must-approve document that a route names gave.
pub enum ApprovalRead {
    /// No file was found for the id.
    Missing,
    /// Reading or parsing the file failed, with this error.
    Failed(String),
    /// The status in its frontmatter.
    Status(String),
}

/// A document number from a `refs` field, as it was looked up.
pub struct RefLookup {
    /// The number as the `refs` field gives it.
    pub num: u64,
    /// The id of the document with that number, or `None` when there is none.
    pub id: Option<String>,
    /// For a must-approve id, what reading that document gave.
    pub approval: Option<ApprovalRead>,
}

/// A document that the route's subject names, with the lookups of the
/// numbers in its own `refs` field (none when it could not be read).
pub struct DirectRef {
    pub lookup: RefLookup,
    pub indirect: Vec<RefLookup>,
}

/// The refusal that reading a must-approve document gives, if any.
pub open spec fn read_refusal(subject_id: Seq<char>, id: Seq<char>, read: ApprovalRead) -> Option<Seq<char>> {
    match read {
        ApprovalRead::Missing => Some(dangling_text(subject_id, id, false)),
        ApprovalRead::Failed(e) => Some(e@),
        ApprovalRead::Status(s) => reference_refusal(subject_id, id, s@),
    }
}

/// The refusal that one looked-up number gives, if any: a number with no
/// document, or a must-approve document that holds the route back.
pub open spec fn lookup_refusal(subject_id: Seq<char>, l: RefLookup, indirect: bool) -> Option<Seq<char>> {
    match l.id {
        None => Some(dangling_text(subject_id, decimal(l.num as nat), indirect)),
        Some(id) => if must_approve_id(id@) {
            match l.approval {
                Some(read) => read_refusal(subject_id, id@, read),
                None => None,
            }
        } else {
            None
        },
    }
}

/// The first refusal among looked-up numbers, in their order.
pub open spec fn first_lookup_refusal(subject_id: Seq<char>, ls: Seq<RefLookup>, indirect: bool) -> Option<
    Seq<char>,
>
    decreases ls.len(),
{
    if ls.len() == 0 {
        None
    } else {
        match lookup_refusal(subject_id, ls[0], indirect) {
            Some(e) => Some(e),
            None => first_lookup_refusal(subject_id, ls.drop_first(), indirect),
        }
    }
}

/// The refusal a directly named document gives: its own lookup first,
/// then the numbers it names.
pub open spec fn direct_refusal(subject_id: Seq<char>, d: DirectRef) -> Option<Seq<char>> {
    match lookup_refusal(subject_id, d.lookup, false) {
        Some(e) => Some(e),
        None => first_lookup_refusal(subject_id, d.indirect@, true),
    }
}

/// The first refusal among the directly named documents, in their order.
pub open spec fn first_direct_refusal(subject_id: Seq<char>, ds: Seq<DirectRef>) -> Option<Seq<char>>
    decreases ds.len(),
{
    if ds.len() == 0 {
        None
    } else {
        match direct_refusal(subject_id, ds[0]) {
            Some(e) => Some(e),
            None => first_direct_refusal(subject_id, ds.drop_first()),
        }
    }
}

/// The refusal of a route about a document of this type and status that
/// names these documents, if any.
pub open spec fn route_refusal(
    subject_id: Seq<char>,
    doc_type: Seq<char>,
    status: Seq<char>,
    ds: Seq<DirectRef>,
) -> Option<Seq<char>> {
    match subject_refusal(subject_id, doc_type, status) {
        Some(e) => Some(e),
        None => first_direct_refusal(subject_id, ds),
    }
}

/// A looked-up number that lets a route go on: it has a document, and when
/// that document must be approved and was read, the read gave a status
/// that does not hold work back.
pub open spec fn lookup_clear(l: RefLookup) -> bool {
    &&& l.id is Some
    &&& must_approve_id(l.id->0@) ==> match l.approval {
        Some(ApprovalRead::Status(s)) => !holds_back(s@),
        Some(_) => false,
        None => true,
    }
}

proof fn lemma_lookup_clear(subject_id: Seq<char>, l: RefLookup, indirect: bool)
    ensures
        lookup_refusal(subject_id, l, indirect) is None <==> lookup_clear(l),
{
}

proof fn lemma_first_lookup_clear(subject_id: Seq<char>, ls: Seq<RefLookup>, indirect: bool)
    ensures
        first_lookup_refusal(subject_id, ls, indirect) is None <==> forall|j: int|
            0 <= j < ls.len() ==> lookup_clear(#[trigger] ls[j]),
    decreases ls.len(),
{
    if ls.len() > 0 {
        lemma_lookup_clear(subject_id, ls[0], indirect);
        lemma_first_lookup_clear(subject_id, ls.drop_first(), indirect);
        if forall|j: int| 0 <= j < ls.len() ==> lookup_clear(#[trigger] ls[j]) {
            assert forall|j: int| 0 <= j < ls.drop_first().len() implies lookup_clear(
                #[trigger] ls.drop_first()[j],
            ) by {
                assert(ls.drop_first()[j] == ls[j + 1]);
            }
        }
        if first_lookup_refusal(subject_id, ls, indirect) is None {
            assert forall|j: int| 0 <= j < ls.len() implies lookup_clear(#[trigger] ls[j]) by {
                if j > 0 {
                    assert(ls.drop_first()[j - 1] == ls[j]);
                }
            }
        }
    }
}

proof fn lemma_first_direct_clear(subject_id: Seq<char>, ds: Seq<DirectRef>)
    ensures
        first_direct_refusal(subject_id, ds) is None <==> forall|i: int|
            0 <= i < ds.len() ==> #[trigger] lookup_clear(ds[i].lookup) && forall|j: int|
                0 <= j < ds[i].indirect@.len() ==> lookup_clear(#[trigger] ds[i].indirect@[j]),
    decreases ds.len(),
{
    if ds.len() > 0 {
        lemma_lookup_clear(subject_id, ds[0].lookup, false);
        lemma_first_lookup_clear(subject_id, ds[0].indirect@, true);
        lemma_first_direct_clear(subject_id, ds.drop_first());
        assert forall|i: int| 0 <= i < ds.drop_first().len() implies #[trigger] ds.drop_first()[i]
            == ds[i + 1] by {}
        if first_direct_refusal(subject_id, ds) is None {
            assert forall|i: int| 0 <= i < ds.len() implies #[trigger] lookup_clear(ds[i].lookup)
                && forall|j: int|
                0 <= j < ds[i].indirect@.len() ==> lookup_clear(#[trigger] ds[i].indirect@[j]) by {
                if i > 0 {
                    let k = i - 1;
                    assert(ds.drop_first()[k] == ds[i]);
                    assert(lookup_clear(ds.drop_first()[k].lookup));
                }
            }
        }
        if forall|i: int|
            0 <= i < ds.len() ==> #[trigger] lookup_clear(ds[i].lookup) && forall|j: int|
                0 <= j < ds[i].indirect@.len() ==> lookup_clear(#[trigger] ds[i].indirect@[j]) {
            assert(lookup_clear(ds[0].lookup));
            assert forall|i: int| 0 <= i < ds.drop_first().len() implies #[trigger] lookup_clear(
                ds.drop_first()[i].lookup,
            ) && forall|j: int|
                0 <= j < ds.drop_first()[i].indirect@.len() ==> lookup_clear(
                    #[trigger] ds.drop_first()[i].indirect@[j],
                ) by {
                assert(ds.drop_first()[i] == ds[i + 1]);
                assert(lookup_clear(ds[i + 1].lookup));
            }
        }
    }
}

/// The route gate lets a route go on exactly when its own document is not
/// a plan or review that waits for approval or was rejected, and every number it
/// names, directly or through a named document, has a document, none of
/// the must-approve ones among them having been read as waiting for
/// approval, rejected, missing or unreadable.
pub proof fn law_route_goes_on_iff_all_clear(
    subject_id: Seq<char>,
    doc_type: Seq<char>,
    status: Seq<char>,
    ds: Seq<DirectRef>,
)
    ensures
        route_refusal(subject_id, doc_type, status, ds) is None <==> {
            &&& !(must_approve_type(doc_type) && holds_back(status))
            &&& forall|i: int|
                0 <= i < ds.len() ==> #[trigger] lookup_clear(ds[i].lookup) && forall|j: int|
                    0 <= j < ds[i].indirect@.len() ==> lookup_clear(#[trigger] ds[i].indirect@[j])
        },
{
    lemma_first_direct_clear(subject_id, ds);
}

fn lookup_verdict(subject_id: &str, l: &RefLookup, indirect: bool) -> (r: Result<(), String>)
    ensures
        match lookup_refusal(subject_id@, *l, indirect) {
            Some(e) => r matches Err(m) && m@ == e,
            None => r is Ok,
        },
{
    match &l.id {
        None => {
            let n = fmt_u64(l.num);
            let ns = string_of(n.as_slice());
            Err(dangling_ref_message(subject_id, ns.as_str(), indirect))
        },
        Some(id) => {
            if !is_must_approve_id(id.as_str()) {
                return Ok(());
            }
            match &l.approval {
                None => Ok(()),
                Some(ApprovalRead::Missing) => Err(dangling_ref_message(subject_id, id.as_str(), false)),
                Some(ApprovalRead::Failed(e)) => Err(e.clone()),
                Some(ApprovalRead::Status(s)) => reference_verdict(subject_id, id.as_str(), s.as_str()),
            }
        },
    }
}

fn lookups_verdict(subject_id: &str, ls: &Vec<RefLookup>, indirect: bool) -> (r: Result<(), String>)
    ensures
        match first_lookup_refusal(subject_id@, ls@, indirect) {
            Some(e) => r matches Err(m) && m@ == e,
            None => r is Ok,
        },
{
    let mut i: usize = 0;
    assert(ls@.subrange(0, ls@.len() as int) =~= ls@);
    while i < ls.len()
        invariant
            i <= ls@.len(),
            first_lookup_refusal(subject_id@, ls@, indirect) == first_lookup_refusal(
                subject_id@,
                ls@.subrange(i as int, ls@.len() as int),
                indirect,
            ),
        decreases ls@.len() - i,
    {
        let ghost rest = ls@.subrange(i as int, ls@.len() as int);
        assert(rest[0] == ls@[i as int]);
        assert(rest.drop_first() =~= ls@.subrange(i + 1, ls@.len() as int));
        let v = lookup_verdict(subject_id, &ls[i], indirect);
        if v.is_err() {
            return v;
        }
        i = i + 1;
    }
    assert(ls@.subrange(i as int, ls@.len() as int).len() == 0);
    Ok(())
}

/// Whether a route about a document of this type and status may go on,
/// given the documents it names: it may not while the document itself, or
/// a must-approve document it names directly or through one document,
/// waits for approval or was rejected, nor while a number it names (or one
/// that a named document names) has no document.
pub fn route_verdict(subject_id: &str, doc_type: &str, status: &str, refs: &Vec<DirectRef>) -> (r: Result<
    (),
    String,
>)
    ensures
        match route_refusal(subject_id@, doc_type@, status@, refs@) {
            Some(e) => r matches Err(m) && m@ == e,
            None => r is Ok,
        },
{
    let sv = subject_verdict(subject_id, doc_type, status);
    if sv.is_err() {
        return sv;
    }
    append_verdict(subject_id, refs)
}

/// Whether an append to a document may go on, given the documents it names:
/// the references are held to the route gate, while the document itself may
/// still be a plan or review awaiting approval (it is being written).
pub fn append_verdict(subject_id: &str, refs: &Vec<DirectRef>) -> (r: Result<(), String>)
    ensures
        match first_direct_refusal(subject_id@, refs@) {
            Some(e) => r matches Err(m) && m@ == e,
            None => r is Ok,
        },
{
    let mut i: usize = 0;
    assert(refs@.subrange(0, refs@.len() as int) =~= refs@);
    while i < refs.len()
        invariant
            i <= refs@.len(),
            first_direct_refusal(subject_id@, refs@) == first_direct_refusal(
                subject_id@,
                refs@.subrange(i as int, refs@.len() as int),
            ),
        decreases refs@.len() - i,
    {
        let ghost rest = refs@.subrange(i as int, refs@.len() as int);
        assert(rest[0] == refs@[i as int]);
        assert(rest.drop_first() =~= refs@.subrange(i + 1, refs@.len() as int));
        let d = &refs[i];
        let v = lookup_verdict(subject_id, &d.lookup, false);
        if v.is_err() {
            return v;
        }
        let w = lookups_verdict(subject_id, &d.indirect, true);
        if w.is_err() {
            return w;
        }
        i = i + 1;
    }
    assert(refs@.subrange(i as int, refs@.len() as int).len() == 0);
    Ok(())
}

} // verus!

//! The laws of the repository: properties that relate several
//! operations, stated over the model's transition functions and proved
//! once and for all.

use vstd::prelude::*;
use crate::docid::{dec_of, lemma_dec_of_injective};
use crate::model::{
    assign_state, distinct_chunk_keys, distinct_doc_keys, distinct_user_keys, download_result,
    get_profile_result, is_admin, new_chunk_v, new_metadata_v, register_result, register_state,
    upload_result, upload_state, upsert_chunk, upsert_doc, permitted_docs, RepoV,
};
use crate::policy::{lemma_upload_readable, read_permit, upload_allowed};
use crate::store::{lemma_chunk_found, lemma_doc_found, lemma_user_found};
use crate::types::{
    DocumentMetadataV, RegisterUserRequestV, RepoError, UploadDocumentRequestV, UserRole,
};

verus! {

/// In a well-formed state at most one profile exists for any principal:
/// any two positions holding the same principal coincide.
pub proof fn lemma_at_most_one_profile(s: RepoV, p: Seq<u8>, i: int, j: int)
    requires
        s.wf(),
        0 <= i < s.users.len(),
        0 <= j < s.users.len(),
        s.users[i].principal == p,
        s.users[j].principal == p,
    ensures
        i == j,
{
    if i < j {
        assert(s.users[i].principal != s.users[j].principal);
    } else if j < i {
        assert(s.users[j].principal != s.users[i].principal);
    }
}

/// Upload succeeds exactly on the admissible (role, access level) pairs:
/// an unregistered caller is refused with NotRegistered, a registered
/// caller with an inadmissible pair with NotAuthorized, and a registered
/// caller with an admissible pair always succeeds, returning metadata
/// whose `size` equals the length of the uploaded data.
pub proof fn lemma_upload_admissibility(
    s: RepoV,
    caller: Seq<u8>,
    req: UploadDocumentRequestV,
    now: u64,
)
    ensures
        !s.has_user(caller) ==> upload_result(s, caller, req, now) == Result::<
            DocumentMetadataV,
            RepoError,
        >::Err(RepoError::NotRegistered),
        s.has_user(caller) && !upload_allowed(s.user_at(caller).role, req.access_level)
            ==> upload_result(s, caller, req, now) == Result::<DocumentMetadataV, RepoError>::Err(
            RepoError::NotAuthorized,
        ),
        s.has_user(caller) && upload_allowed(s.user_at(caller).role, req.access_level)
            ==> upload_result(s, caller, req, now) is Ok && upload_result(
            s,
            caller,
            req,
            now,
        )->Ok_0.size == req.data.len() as u64,
{
}

/// After an upsert of `m` the document map is still uniquely keyed,
/// holds `m` under `m.id`, and every other record is unchanged.
proof fn lemma_upsert_doc_found(s: RepoV, m: DocumentMetadataV)
    requires
        s.wf(),
    ensures
        distinct_doc_keys(upsert_doc(s, m)),
        exists|i: int| 0 <= i < upsert_doc(s, m).len() && upsert_doc(s, m)[i] == m,
        forall|i: int|
            0 <= i < upsert_doc(s, m).len() && upsert_doc(s, m)[i].id != m.id ==> 0 <= i
                < s.docs.len() && upsert_doc(s, m)[i] == s.docs[i],
{
    let d2 = upsert_doc(s, m);
    if s.has_doc(m.id) {
        let di = s.doc_index(m.id);
        assert(0 <= di < s.docs.len() && s.docs[di].id == m.id);
        assert(d2[di] == m);
        assert forall|a: int, b: int| 0 <= a < b < d2.len() implies d2[a].id != d2[b].id by {
            assert(s.docs[a].id != s.docs[b].id);
        }
    } else {
        assert(d2[s.docs.len() as int] == m);
        assert forall|a: int, b: int| 0 <= a < b < d2.len() implies d2[a].id != d2[b].id by {
            if b < s.docs.len() {
                assert(s.docs[a].id != s.docs[b].id);
            } else {
                assert(s.docs[a].id != m.id);
            }
        }
    }
}

/// The chunk-map analogue of [`lemma_upsert_doc_found`].
proof fn lemma_upsert_chunk_found(s: RepoV, c: crate::types::DocumentChunkV)
    requires
        s.wf(),
    ensures
        distinct_chunk_keys(upsert_chunk(s, c)),
        exists|i: int| 0 <= i < upsert_chunk(s, c).len() && upsert_chunk(s, c)[i] == c,
{
    let c2 = upsert_chunk(s, c);
    if s.has_chunk(c.document_id, c.chunk_index) {
        let ci = s.chunk_index_of(c.document_id, c.chunk_index);
        assert(0 <= ci < s.chunks.len() && s.chunks[ci].document_id == c.document_id
            && s.chunks[ci].chunk_index == c.chunk_index);
        assert(c2[ci] == c);
        assert forall|a: int, b: int|
            0 <= a < b < c2.len() implies !(c2[a].document_id == c2[b].document_id
            && c2[a].chunk_index == c2[b].chunk_index) by {
            assert(!(s.chunks[a].document_id == s.chunks[b].document_id && s.chunks[a].chunk_index
                == s.chunks[b].chunk_index));
        }
    } else {
        assert(c2[s.chunks.len() as int] == c);
        assert forall|a: int, b: int|
            0 <= a < b < c2.len() implies !(c2[a].document_id == c2[b].document_id
            && c2[a].chunk_index == c2[b].chunk_index) by {
            if b < s.chunks.len() {
                assert(!(s.chunks[a].document_id == s.chunks[b].document_id
                    && s.chunks[a].chunk_index == s.chunks[b].chunk_index));
            } else {
                assert(!(s.chunks[a].document_id == c.document_id && s.chunks[a].chunk_index
                    == c.chunk_index));
            }
        }
    }
}

/// A successful upload can immediately be read back by its uploader:
/// downloading the returned metadata's id in the new state yields
/// exactly the uploaded bytes. In particular, a zero-byte upload reads
/// back as zero bytes.
pub proof fn lemma_upload_then_download(
    s: RepoV,
    caller: Seq<u8>,
    req: UploadDocumentRequestV,
    now: u64,
)
    requires
        s.wf(),
        upload_result(s, caller, req, now) is Ok,
    ensures
        ({
            let s2 = upload_state(s, caller, req, now);
            let m = upload_result(s, caller, req, now)->Ok_0;
            download_result(s2, caller, m.id) == Result::<Seq<u8>, RepoError>::Ok(req.data)
        }),
{
    let s2 = upload_state(s, caller, req, now);
    let m = new_metadata_v(caller, req, now);
    let c = new_chunk_v(caller, req, now);
    let role = s.user_at(caller).role;
    lemma_upsert_doc_found(s, m);
    lemma_upsert_chunk_found(s, c);
    let wi = choose|i: int| 0 <= i < s2.docs.len() && s2.docs[i] == m;
    assert(s2.docs[wi].id == m.id);
    let swf = RepoV { users: s.users, docs: s2.docs, chunks: s2.chunks };
    assert(distinct_user_keys(swf.users));
    assert(swf.wf());
    assert(s2 == swf);
    lemma_doc_found(s2, m.id, wi);
    assert(s2.doc_at(m.id) == m);
    let wc = choose|i: int| 0 <= i < s2.chunks.len() && s2.chunks[i] == c;
    assert(s2.chunks[wc].document_id == m.id && s2.chunks[wc].chunk_index == 0);
    lemma_chunk_found(s2, m.id, 0, wc);
    assert(s2.chunk_at(m.id, 0) == c);
    assert(s2.users == s.users);
    assert(s2.has_user(caller));
    let ui = s.user_index(caller);
    assert(0 <= ui < s.users.len() && s.users[ui].principal == caller);
    lemma_user_found(s2, caller, ui);
    assert(s2.read_role_of(caller) == role);
    lemma_upload_readable(role, req.access_level, caller);
    assert(read_permit(s2.read_role_of(caller), m.access_level, m.owner, caller));
}

/// Two uploads under the same name and owner at different timestamps
/// feed distinct inputs to the digest that derives the document id: the
/// rendered timestamps differ, so the hashed byte strings differ. The
/// ids themselves then coincide only if SHA-256 collides on those
/// inputs.
pub proof fn lemma_distinct_timestamps_distinct_digest_input(t1: u64, t2: u64)
    requires
        t1 != t2,
    ensures
        dec_of(t1 as nat) != dec_of(t2 as nat),
{
    lemma_dec_of_injective(t1 as nat, t2 as nat);
}

/// The listing a caller sees contains exactly the records the read
/// policy permits: membership in `permitted_docs` is membership in the
/// store filtered by the read permit.
pub proof fn lemma_permitted_docs_membership(
    docs: Seq<DocumentMetadataV>,
    role: UserRole,
    caller: Seq<u8>,
    m: DocumentMetadataV,
)
    ensures
        permitted_docs(docs, role, caller).contains(m) <==> docs.contains(m) && read_permit(
            role,
            m.access_level,
            m.owner,
            caller,
        ),
    decreases docs.len(),
{
    if docs.len() == 0 {
    } else {
        let rest = docs.drop_last();
        let d = docs.last();
        lemma_permitted_docs_membership(rest, role, caller, m);
        let pr = permitted_docs(rest, role, caller);
        let pd = permitted_docs(docs, role, caller);
        if read_permit(role, d.access_level, d.owner, caller) {
            assert(pd == pr.push(d));
            if pd.contains(m) {
                let i = choose|i: int| 0 <= i < pd.len() && pd[i] == m;
                if i < pr.len() {
                    assert(pr[i] == m);
                    assert(rest.contains(m));
                    let k = choose|k: int| 0 <= k < rest.len() && rest[k] == m;
                    assert(docs[k] == m);
                } else {
                    assert(m == d);
                    assert(docs[docs.len() - 1] == m);
                }
            }
            if docs.contains(m) && read_permit(role, m.access_level, m.owner, caller) {
                let i = choose|i: int| 0 <= i < docs.len() && docs[i] == m;
                if i < docs.len() - 1 {
                    assert(rest[i] == m);
                    assert(rest.contains(m));
                    let k = choose|k: int| 0 <= k < pr.len() && pr[k] == m;
                    assert(pd[k] == m);
                } else {
                    assert(pd[pr.len() as int] == m);
                }
            }
        } else {
            assert(pd == pr);
            if pd.contains(m) {
                assert(rest.contains(m));
                let k = choose|k: int| 0 <= k < rest.len() && rest[k] == m;
                assert(docs[k] == m);
            }
            if docs.contains(m) && read_permit(role, m.access_level, m.owner, caller) {
                let i = choose|i: int| 0 <= i < docs.len() && docs[i] == m;
                if i < docs.len() - 1 {
                    assert(rest[i] == m);
                    assert(rest.contains(m));
                } else {
                    assert(m == d);
                }
            }
        }
    }
}

/// The listing of a state as some caller sees it contains exactly the
/// stored records the read policy permits that caller to read.
pub proof fn lemma_list_documents_membership(s: RepoV, caller: Seq<u8>, m: DocumentMetadataV)
    ensures
        crate::model::list_documents_result(s, caller).contains(m) <==> s.docs.contains(m)
            && read_permit(s.read_role_of(caller), m.access_level, m.owner, caller),
{
    lemma_permitted_docs_membership(s.docs, s.read_role_of(caller), caller, m);
}

/// Reassigning a user to the role they already hold changes no read
/// outcome: every caller's download verdict on every document is the
/// same before and after. (`updated_at` is still refreshed; the read
/// policy does not see it.)
pub proof fn lemma_assign_same_role_preserves_reads(
    s: RepoV,
    caller: Seq<u8>,
    target: Seq<u8>,
    now: u64,
    p: Seq<u8>,
    id: Seq<char>,
)
    requires
        s.wf(),
        is_admin(s, caller),
        s.has_user(target),
    ensures
        ({
            let s2 = assign_state(s, caller, target, s.user_at(target).role, now);
            download_result(s2, p, id) == download_result(s, p, id)
        }),
{
    let s2 = assign_state(s, caller, target, s.user_at(target).role, now);
    let t = s.user_index(target);
    assert(0 <= t < s.users.len() && s.users[t].principal == target);
    assert forall|x: int|
        0 <= x < s2.users.len() implies s2.users[x].principal == s.users[x].principal
        && s2.users[x].role == s.users[x].role by {}
    assert(s2.docs == s.docs);
    assert(s2.chunks == s.chunks);
    if s.has_user(p) {
        let ui = s.user_index(p);
        assert(0 <= ui < s.users.len() && s.users[ui].principal == p);
        assert(distinct_user_keys(s2.users)) by {
            assert forall|a: int, b: int|
                0 <= a < b < s2.users.len() implies s2.users[a].principal
                != s2.users[b].principal by {
                assert(s.users[a].principal != s.users[b].principal);
            }
        }
        assert(s2.users[ui].principal == p);
        lemma_user_found(
            RepoV { users: s2.users, docs: s2.docs, chunks: s2.chunks },
            p,
            ui,
        );
        assert(s2 == (RepoV { users: s2.users, docs: s2.docs, chunks: s2.chunks }));
        assert(s2.read_role_of(p) == s.read_role_of(p));
    } else {
        assert forall|x: int| 0 <= x < s2.users.len() implies s2.users[x].principal != p by {
            assert(s.users[x].principal != p);
        }
        assert(!s2.has_user(p));
        assert(s2.read_role_of(p) == s.read_role_of(p));
    }
}

/// Reads are functions of the state alone: with no mutation in between,
/// repeated profile reads and repeated downloads return identical data.
pub proof fn lemma_reads_deterministic(s1: RepoV, s2: RepoV, caller: Seq<u8>, id: Seq<char>)
    requires
        s1 == s2,
    ensures
        get_profile_result(s1, caller) == get_profile_result(s2, caller),
        download_result(s1, caller, id) == download_result(s2, caller, id),
{
}

/// Registering twice from the same principal: the second call is
/// refused with AlreadyRegistered and leaves the state — the stored
/// profile and its timestamps included — exactly as it was.
pub proof fn lemma_register_twice(
    s: RepoV,
    caller: Seq<u8>,
    req1: RegisterUserRequestV,
    now1: u64,
    req2: RegisterUserRequestV,
    now2: u64,
)
    ensures
        ({
            let s1 = register_state(s, caller, req1, now1);
            register_state(s1, caller, req2, now2) == s1 && register_result(
                s1,
                caller,
                req2,
                now2,
            ) == Result::<crate::types::UserProfileV, RepoError>::Err(RepoError::AlreadyRegistered)
        }),
{
    let s1 = register_state(s, caller, req1, now1);
    if s.has_user(caller) {
        assert(s1 == s);
    } else {
        assert(s1.users[s.users.len() as int].principal == caller);
        assert(s1.has_user(caller));
    }
}

} // verus!

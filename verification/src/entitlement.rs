use vstd::prelude::*;
use vstd::string::StringExecFns;
use crate::error::{APIError, DatabaseQueryError};
use crate::records::UploadSession;
use crate::schema::{Format, FormatV};
use crate::search::{PreparedSearchQuery, SearchQuery};

verus! {

/// One capability an entitlement can grant on a format.
#[derive(Debug, Clone, Copy, PartialEq, Eq, Structural)]
pub enum AccessLevel {
    Read,
    Write,
    /// Delete upload sessions created in the recent window only.
    LimitedDelete,
    /// Delete any upload session of the format.
    Delete,
}

/// The set of capabilities one entitlement grants.
#[derive(Debug, Clone, Copy, PartialEq, Eq, Structural)]
pub struct Access {
    pub read: bool,
    pub write: bool,
    pub limited_delete: bool,
    pub delete: bool,
}

impl Access {
    /// Whether the set holds `level`.
    pub open spec fn spec_contains(&self, level: AccessLevel) -> bool {
        match level {
            AccessLevel::Read => self.read,
            AccessLevel::Write => self.write,
            AccessLevel::LimitedDelete => self.limited_delete,
            AccessLevel::Delete => self.delete,
        }
    }

    /// Whether the set holds `level`.
    pub fn contains(&self, level: AccessLevel) -> (r: bool)
        ensures
            r == self.spec_contains(level),
    {
        match level {
            AccessLevel::Read => self.read,
            AccessLevel::Write => self.write,
            AccessLevel::LimitedDelete => self.limited_delete,
            AccessLevel::Delete => self.delete,
        }
    }

    /// Whether the set grants nothing.
    pub fn is_empty(&self) -> (r: bool)
        ensures
            r == (!self.read && !self.write && !self.limited_delete && !self.delete),
    {
        !self.read && !self.write && !self.limited_delete && !self.delete
    }
}

/// A per-(user, format) grant of capabilities.
#[derive(Debug, Clone, Copy, PartialEq, Eq)]
pub struct Entitlement {
    pub user_id: u128,
    pub format_id: i32,
    /// Seconds since the epoch.
    pub created_at: i64,
    pub access: Access,
}

/// A resolved identity, as the authentication layer hands it over.
#[derive(Debug, PartialEq, Eq)]
pub struct User {
    pub id: u128,
    pub username: String,
    pub password: String,
    pub is_superuser: bool,
    pub active: bool,
}

/// The mathematical image of a `User`.
pub struct UserV {
    pub id: u128,
    pub username: Seq<char>,
    pub password: Seq<char>,
    pub is_superuser: bool,
    pub active: bool,
}

impl View for User {
    type V = UserV;

    open spec fn view(&self) -> UserV {
        UserV {
            id: self.id,
            username: self.username@,
            password: self.password@,
            is_superuser: self.is_superuser,
            active: self.active,
        }
    }
}

impl Clone for User {
    fn clone(&self) -> (r: Self)
        ensures
            r@ == self@,
    {
        User {
            id: self.id,
            username: self.username.clone(),
            password: self.password.clone(),
            is_superuser: self.is_superuser,
            active: self.active,
        }
    }
}

/// Whether `ents` grants `user_id` the capability `level` on format
/// `format_id`.
pub open spec fn spec_entitled(
    ents: Seq<Entitlement>,
    user_id: u128,
    format_id: i32,
    level: AccessLevel,
) -> bool {
    exists|i: int|
        0 <= i < ents.len() && (#[trigger] ents[i]).user_id == user_id && ents[i].format_id
            == format_id && ents[i].access.spec_contains(level)
}

/// Whether a format is visible to a caller: a superuser sees every
/// format, another user only those with a read entitlement, and a
/// caller-supplied id list narrows the result further.
pub open spec fn spec_format_visible(
    f: FormatV,
    user_id: u128,
    is_superuser: bool,
    requested: Option<Seq<i32>>,
    ents: Seq<Entitlement>,
) -> bool {
    &&& (is_superuser || spec_entitled(ents, user_id, f.id, AccessLevel::Read))
    &&& (requested matches Some(ids) ==> ids.contains(f.id))
}

/// The formats visible to a caller, in stored order.
pub open spec fn spec_visible_formats(
    formats: Seq<FormatV>,
    user_id: u128,
    is_superuser: bool,
    requested: Option<Seq<i32>>,
    ents: Seq<Entitlement>,
) -> Seq<FormatV>
    decreases formats.len(),
{
    if formats.len() == 0 {
        Seq::empty()
    } else {
        let rest = spec_visible_formats(formats.drop_last(), user_id, is_superuser, requested, ents);
        if spec_format_visible(formats.last(), user_id, is_superuser, requested, ents) {
            rest.push(formats.last())
        } else {
            rest
        }
    }
}

/// Whether `ids` holds `id`, by scanning.
fn contains_id(ids: &Vec<i32>, id: i32) -> (r: bool)
    ensures
        r == ids@.contains(id),
{
    let n: usize = ids.len();
    let mut i: usize = 0;
    while i < n
        invariant
            i <= n,
            forall|k: int| 0 <= k < i ==> ids@[k] != id,
        decreases n - i,
    {
        if ids[i] == id {
            return true;
        }
        i = i + 1;
    }
    false
}

/// Whether `ents` grants `user_id` the capability `level` on
/// `format_id`, by scanning.
pub fn entitled(ents: &Vec<Entitlement>, user_id: u128, format_id: i32, level: AccessLevel) -> (r:
    bool)
    ensures
        r == spec_entitled(ents@, user_id, format_id, level),
{
    let n: usize = ents.len();
    let mut i: usize = 0;
    while i < n
        invariant
            i <= n,
            forall|k: int|
                !(0 <= k < i && (#[trigger] ents@[k]).user_id == user_id && ents@[k].format_id
                    == format_id && ents@[k].access.spec_contains(level)),
        decreases n - i,
    {
        if ents[i].user_id == user_id && ents[i].format_id == format_id && ents[i].access.contains(
            level,
        ) {
            return true;
        }
        i = i + 1;
    }
    false
}

impl SearchQuery {
    /// Resolve the formats this caller may search: all of them for a
    /// superuser, those with a read entitlement for anyone else, both
    /// narrowed by the caller's optional id list.  The surviving
    /// formats and the query itself form the prepared search.
    pub fn get_readable_formats_for_user(
        self,
        user: &User,
        all_formats: &Vec<Format>,
        entitlements: &Vec<Entitlement>,
    ) -> (r: PreparedSearchQuery)
        ensures
            r@.query == self@,
            r@.formats == spec_visible_formats(
                all_formats.deep_view(),
                user.id,
                user.is_superuser,
                self@.formats,
                entitlements@,
            ),
    {
        let ghost fv = all_formats.deep_view();
        let ghost requested = self@.formats;
        let mut kept: Vec<Format> = Vec::new();
        let n: usize = all_formats.len();
        let mut i: usize = 0;
        while i < n
            invariant
                i <= n,
                kept.deep_view() == spec_visible_formats(
                    fv.subrange(0, i as int),
                    user.id,
                    user.is_superuser,
                    requested,
                    entitlements@,
                ),
            decreases n - i,
        {
            let ghost prefix = fv.subrange(0, i as int);
            let f = &all_formats[i];
            assert(f@ == fv[i as int]);
            let read_ok = user.is_superuser || entitled(
                entitlements,
                user.id,
                f.id,
                AccessLevel::Read,
            );
            let narrowed_ok = match &self.formats {
                Some(ids) => contains_id(ids, f.id),
                None => true,
            };
            let ghost before = kept.deep_view();
            if read_ok && narrowed_ok {
                kept.push(f.clone());
                assert(spec_format_visible(fv[i as int], user.id, user.is_superuser, requested, entitlements@));
            } else {
                assert(!spec_format_visible(fv[i as int], user.id, user.is_superuser, requested, entitlements@));
            }
            i = i + 1;
            assert(fv.subrange(0, i as int) =~= prefix.push(fv[i - 1]));
            assert(fv.subrange(0, i as int).drop_last() =~= prefix);
            assert(kept.deep_view() =~= spec_visible_formats(
                fv.subrange(0, i as int),
                user.id,
                user.is_superuser,
                requested,
                entitlements@,
            ));
        }
        assert(fv.subrange(0, n as int) =~= fv);
        PreparedSearchQuery { formats: kept, query: self }
    }
}

/// Whether the caller may write records of `format_id`: superusers
/// always, anyone else only with a write entitlement.
pub fn user_can_write_format(
    user: &User,
    entitlements: &Vec<Entitlement>,
    format_id: i32,
) -> (r: bool)
    ensures
        r == (user.is_superuser || spec_entitled(
            entitlements@,
            user.id,
            format_id,
            AccessLevel::Write,
        )),
{
    user.is_superuser || entitled(entitlements, user.id, format_id, AccessLevel::Write)
}

/// Whether a non-superuser may delete `session` at time `now`: a full
/// delete entitlement on the session's format always allows it, a
/// limited one only while the session is younger than
/// `temporal_delete_hours`.
pub open spec fn spec_may_delete_session(
    ents: Seq<Entitlement>,
    user_id: u128,
    session: crate::records::UploadSessionV,
    now: i64,
    temporal_delete_hours: u32,
) -> bool {
    ||| spec_entitled(ents, user_id, session.format_id, AccessLevel::Delete)
    ||| (spec_entitled(ents, user_id, session.format_id, AccessLevel::LimitedDelete) && (
    now as int - session.created_at as int) <= (temporal_delete_hours as int) * 3600)
}

/// Decide whether the caller may delete `session` at time `now`.  A
/// superuser always may; anyone else needs a delete-class entitlement
/// on the session's format, and a limited one only admits sessions
/// younger than `temporal_delete_hours`.
pub fn authorize_session_delete(
    user: &User,
    entitlements: &Vec<Entitlement>,
    session: &UploadSession,
    now: i64,
    temporal_delete_hours: u32,
) -> (r: Result<(), DatabaseQueryError>)
    ensures
        r is Ok <==> (user.is_superuser || spec_may_delete_session(
            entitlements@,
            user.id,
            session@,
            now,
            temporal_delete_hours,
        )),
        r matches Err(e) ==> e == DatabaseQueryError::InsufficientPermissions,
{
    if user.is_superuser {
        return Ok(());
    }
    if entitled(entitlements, user.id, session.format_id, AccessLevel::Delete) {
        return Ok(());
    }
    if entitled(entitlements, user.id, session.format_id, AccessLevel::LimitedDelete) {
        let age: i128 = now as i128 - session.created_at as i128;
        let window: i128 = temporal_delete_hours as i128 * 3600;
        if age <= window {
            return Ok(());
        }
        return Err(DatabaseQueryError::InsufficientPermissions);
    }
    Err(DatabaseQueryError::InsufficientPermissions)
}

/// The entitlements a caller may list: all of them for a superuser,
/// otherwise only the caller's own.
pub fn entitlements_visible_to(user: &User, ents: &Vec<Entitlement>) -> (r: Vec<Entitlement>)
    ensures
        user.is_superuser ==> r@ == ents@,
        !user.is_superuser ==> r@ == ents@.filter(|e: Entitlement| e.user_id == user.id),
{
    if user.is_superuser {
        let mut out: Vec<Entitlement> = Vec::new();
        let n: usize = ents.len();
        let mut i: usize = 0;
        while i < n
            invariant
                i <= n,
                out@ == ents@.subrange(0, i as int),
            decreases n - i,
        {
            out.push(ents[i]);
            i = i + 1;
            assert(out@ =~= ents@.subrange(0, i as int));
        }
        assert(ents@.subrange(0, n as int) =~= ents@);
        return out;
    }
    let mut out: Vec<Entitlement> = Vec::new();
    let n: usize = ents.len();
    let mut i: usize = 0;
    while i < n
        invariant
            i <= n,
            out@ == ents@.subrange(0, i as int).filter(|e: Entitlement| e.user_id == user.id),
        decreases n - i,
    {
        let ghost prefix = ents@.subrange(0, i as int);
        if ents[i].user_id == user.id {
            out.push(ents[i]);
        }
        i = i + 1;
        proof {
            reveal(Seq::filter);
            assert(ents@.subrange(0, i as int).drop_last() =~= prefix);
            assert(ents@.subrange(0, i as int).last() == ents@[i - 1]);
        }
        assert(out@ =~= ents@.subrange(0, i as int).filter(
            |e: Entitlement| e.user_id == user.id,
        ));
    }
    assert(ents@.subrange(0, n as int) =~= ents@);
    out
}

/// Whether an upload session is visible to a caller: superusers see
/// every session, others the sessions of formats they hold any
/// entitlement on.
pub open spec fn spec_session_visible(
    s: crate::records::UploadSessionV,
    user_id: u128,
    is_superuser: bool,
    ents: Seq<Entitlement>,
) -> bool {
    is_superuser || exists|i: int|
        0 <= i < ents.len() && (#[trigger] ents[i]).user_id == user_id && ents[i].format_id
            == s.format_id
}

/// Whether the caller may see `session`, by scanning the entitlements.
pub fn session_visible_to(user: &User, ents: &Vec<Entitlement>, session: &UploadSession) -> (r:
    bool)
    ensures
        r == spec_session_visible(session@, user.id, user.is_superuser, ents@),
{
    if user.is_superuser {
        return true;
    }
    let n: usize = ents.len();
    let mut i: usize = 0;
    while i < n
        invariant
            i <= n,
            forall|k: int|
                !(0 <= k < i && (#[trigger] ents@[k]).user_id == user.id && ents@[k].format_id
                    == session.format_id),
        decreases n - i,
    {
        if ents[i].user_id == user.id && ents[i].format_id == session.format_id {
            return true;
        }
        i = i + 1;
    }
    false
}

/// The per-field patch a user update carries: absent fields keep
/// their stored value.
#[derive(Debug, PartialEq, Eq)]
pub struct UpdatableModel {
    pub username: Option<String>,
    pub password: Option<String>,
    pub is_superuser: Option<bool>,
    pub active: Option<bool>,
}

/// The mathematical image of an `UpdatableModel`.
pub struct UpdatableModelV {
    pub username: Option<Seq<char>>,
    pub password: Option<Seq<char>>,
    pub is_superuser: Option<bool>,
    pub active: Option<bool>,
}

impl View for UpdatableModel {
    type V = UpdatableModelV;

    open spec fn view(&self) -> UpdatableModelV {
        UpdatableModelV {
            username: match self.username {
                Some(ref u) => Some(u@),
                None => None,
            },
            password: match self.password {
                Some(ref p) => Some(p@),
                None => None,
            },
            is_superuser: self.is_superuser,
            active: self.active,
        }
    }
}

/// Who may update whom: a regular user only itself and never the
/// sensitive flags; with superuser protection on, a superuser account
/// cannot be modified at all.
pub fn authorize_user_update(
    auth: &User,
    target: &User,
    patch: &UpdatableModel,
    protect_superuser: bool,
) -> (r: Result<(), APIError>)
    ensures
        r is Ok <==> ((auth.is_superuser || (auth.id == target.id && patch.is_superuser is None
            && patch.active is None)) && !(protect_superuser && target.is_superuser)),
        r matches Err(e) ==> (e == APIError::InsufficientPermissions || e matches
            APIError::ConflictingOperation(_)),
{
    if !auth.is_superuser && auth.id != target.id {
        return Err(APIError::InsufficientPermissions);
    }
    if !auth.is_superuser && (patch.is_superuser.is_some() || patch.active.is_some()) {
        return Err(APIError::InsufficientPermissions);
    }
    if protect_superuser && target.is_superuser {
        return Err(APIError::ConflictingOperation(String::from_str("can't modify a superuser")));
    }
    Ok(())
}

/// Merge a patch into a stored user: a present field replaces the
/// stored one, an absent field leaves it.
pub fn apply_user_update(user: User, patch: UpdatableModel) -> (r: User)
    ensures
        r@.id == user@.id,
        r@.username == (match patch@.username {
            Some(u) => u,
            None => user@.username,
        }),
        r@.password == (match patch@.password {
            Some(p) => p,
            None => user@.password,
        }),
        r@.is_superuser == (match patch@.is_superuser {
            Some(s) => s,
            None => user@.is_superuser,
        }),
        r@.active == (match patch@.active {
            Some(a) => a,
            None => user@.active,
        }),
{
    User {
        id: user.id,
        username: match patch.username {
            Some(u) => u,
            None => user.username,
        },
        password: match patch.password {
            Some(p) => p,
            None => user.password,
        },
        is_superuser: match patch.is_superuser {
            Some(s) => s,
            None => user.is_superuser,
        },
        active: match patch.active {
            Some(a) => a,
            None => user.active,
        },
    }
}

/// Who may delete whom: only an administrator, never itself, and,
/// with superuser protection on, never a superuser account.
pub fn authorize_user_delete(
    auth: &User,
    target: &User,
    protect_superuser: bool,
) -> (r: Result<(), APIError>)
    ensures
        r is Ok <==> (auth.is_superuser && auth.id != target.id && !(protect_superuser
            && target.is_superuser)),
        r matches Err(e) ==> (e == APIError::AdminOnlyResource || e matches
            APIError::InvalidOperation(_) || e matches APIError::ConflictingOperation(_)),
{
    if !auth.is_superuser {
        return Err(APIError::AdminOnlyResource);
    }
    if auth.id == target.id {
        return Err(APIError::InvalidOperation(String::from_str("You can't delete yourself")));
    }
    if protect_superuser && target.is_superuser {
        return Err(APIError::ConflictingOperation(String::from_str("can't delete a superuser")));
    }
    Ok(())
}


/// Every format the resolver keeps is visible to the caller and comes
/// from the stored list.
pub proof fn lemma_visible_formats_are_visible(
    formats: Seq<FormatV>,
    user_id: u128,
    is_superuser: bool,
    requested: Option<Seq<i32>>,
    ents: Seq<Entitlement>,
    i: int,
)
    requires
        0 <= i < spec_visible_formats(formats, user_id, is_superuser, requested, ents).len(),
    ensures
        spec_format_visible(
            spec_visible_formats(formats, user_id, is_superuser, requested, ents)[i],
            user_id,
            is_superuser,
            requested,
            ents,
        ),
        formats.contains(
            spec_visible_formats(formats, user_id, is_superuser, requested, ents)[i],
        ),
    decreases formats.len(),
{
    let kept = spec_visible_formats(formats, user_id, is_superuser, requested, ents);
    if formats.len() > 0 {
        let rest = spec_visible_formats(formats.drop_last(), user_id, is_superuser, requested, ents);
        if i < rest.len() {
            lemma_visible_formats_are_visible(
                formats.drop_last(),
                user_id,
                is_superuser,
                requested,
                ents,
                i,
            );
            assert(formats.drop_last().contains(rest[i]));
            let j = choose|j: int| 0 <= j < formats.drop_last().len() && formats.drop_last()[j] == rest[i];
            assert(formats[j] == rest[i]);
        } else {
            assert(kept[i] == formats.last());
            assert(formats[formats.len() - 1] == formats.last());
        }
    }
}

/// The entitlement restriction composes with compilation and cannot be
/// bypassed: a record admitted by a query compiled over the resolver's
/// formats belongs to a format the caller may read, whatever the
/// caller's groups say and whatever meaning the backing store gives
/// their leaf comparisons.
pub proof fn lemma_admitted_records_are_readable(
    formats: Seq<FormatV>,
    user_id: u128,
    is_superuser: bool,
    requested: Option<Seq<i32>>,
    ents: Seq<Entitlement>,
    cq: crate::search::CompiledQueryV,
    r: crate::records::RecordV,
    leaf: spec_fn(crate::search::CompiledArgV, crate::records::RecordV) -> bool,
)
    requires
        cq.visible_format_ids == crate::search::spec_format_ids(
            spec_visible_formats(formats, user_id, is_superuser, requested, ents),
        ),
        crate::search::spec_query_admits(cq, r, leaf),
    ensures
        exists|f: FormatV|
            #[trigger] spec_format_visible(f, user_id, is_superuser, requested, ents) && f.id
                == r.format_id && formats.contains(f),
{
    let kept = spec_visible_formats(formats, user_id, is_superuser, requested, ents);
    let ids = crate::search::spec_format_ids(kept);
    assert(ids.contains(r.format_id));
    let i = choose|i: int| 0 <= i < ids.len() && ids[i] == r.format_id;
    assert(kept[i].id == r.format_id);
    lemma_visible_formats_are_visible(formats, user_id, is_superuser, requested, ents, i);
    assert(spec_format_visible(kept[i], user_id, is_superuser, requested, ents));
}


} // verus!

//! The sync server's rules: request validation, token claims and cutoffs,
//! refresh-token rotation decisions, upload planning and checks, pull
//! paging, and download headers.
use vstd::prelude::*;
use crate::numfmt::{decimal, signed_decimal, i64_to_string, push_decimal};
use crate::parse_error::concat_str;
use crate::server_types::{AppError, Claims, PullOperation, PullResponse};
use crate::text::{chars_of, push_char, contains_str, contains_seq};
use vstd::string::StringSliceAdditionalSpecFns;

verus! {

// ----- registration and passwords -----

/// Why a registration is refused, if it is: a username outside 3..=32
/// bytes, an email without `@` or `.`, or a password under 8 bytes, checked
/// in that order.
pub open spec fn registration_problem(username_len: nat, email: Seq<char>, password_len: nat) -> Option<Seq<char>> {
    if username_len < 3 || username_len > 32 {
        Some("Username must be between 3 and 32 characters"@)
    } else if !email.contains('@') || !email.contains('.') {
        Some("Invalid email format"@)
    } else if password_len < 8 {
        Some("Password must be at least 8 characters"@)
    } else {
        None
    }
}

fn contains_char(s: &str, c: char) -> (b: bool)
    ensures
        b == s@.contains(c),
{
    let v = chars_of(s);
    let mut k: usize = 0;
    while k < v.len()
        invariant
            k <= v.len(),
            v@ == s@,
            forall|j: int| 0 <= j < k ==> v@[j] != c,
        decreases v.len() - k,
    {
        if v[k] == c {
            assert(s@[k as int] == c);
            return true;
        }
        k = k + 1;
    }
    false
}

/// Checks a registration request's fields (lengths are in bytes).
pub fn validate_registration(username: &str, email: &str, password: &str) -> (r: Result<(), AppError>)
    ensures
        match registration_problem(username.spec_bytes().len(), email@, password.spec_bytes().len()) {
            Some(m) => r matches Err(AppError::BadRequest(s)) && s@ == m,
            None => r is Ok,
        },
{
    let ulen = username.as_bytes().len();
    if ulen < 3 || ulen > 32 {
        return Err(AppError::BadRequest(String::from_str("Username must be between 3 and 32 characters")));
    }
    if !contains_char(email, '@') || !contains_char(email, '.') {
        return Err(AppError::BadRequest(String::from_str("Invalid email format")));
    }
    if password.as_bytes().len() < 8 {
        return Err(AppError::BadRequest(String::from_str("Password must be at least 8 characters")));
    }
    Ok(())
}

/// Checks the new password of a password change: at least 8 bytes.
pub fn validate_new_password(new_password: &str) -> (r: Result<(), AppError>)
    ensures
        new_password.spec_bytes().len() < 8 ==> (r matches Err(AppError::BadRequest(s)) && s@
            == "New password must be at least 8 characters"@),
        new_password.spec_bytes().len() >= 8 ==> r is Ok,
{
    if new_password.as_bytes().len() < 8 {
        return Err(AppError::BadRequest(String::from_str("New password must be at least 8 characters")));
    }
    Ok(())
}

// ----- tokens, claims and cutoffs -----

/// Seconds in a millisecond timestamp, rounded toward zero as Rust's `/` does.
pub open spec fn trunc_div_1000(ms: int) -> int {
    if ms >= 0 { ms / 1000 } else { -((-ms) / 1000) }
}

/// The claims of an access token for a user and device issued at
/// `issued_at_ms`: it expires `expiry_secs` after the issue second.
pub fn access_token_claims(user_id: &str, device_id: &str, issued_at_ms: i64, expiry_secs: u64) -> (c: Claims)
    requires
        (trunc_div_1000(issued_at_ms as int) as u64) + expiry_secs <= u64::MAX,
    ensures
        c.sub@ == user_id@,
        c.device_id@ == device_id@,
        c.iat == issued_at_ms as u64,
        c.exp == (trunc_div_1000(issued_at_ms as int) as u64) + expiry_secs,
{
    let secs: i64 = issued_at_ms / 1000;
    assert(secs == trunc_div_1000(issued_at_ms as int));
    Claims {
        sub: String::from_str(user_id),
        exp: #[verifier::truncate] (secs as u64) + expiry_secs,
        iat: #[verifier::truncate] (issued_at_ms as u64),
        device_id: String::from_str(device_id),
    }
}

/// Whether a token issued at `iat` is still honoured: it must not predate
/// the user's cutoff nor the device's (both compared as unsigned values).
pub open spec fn issued_after_cutoffs(iat: u64, user_valid_after: i64, device_valid_after: i64) -> bool {
    !(iat < (user_valid_after as u64) || iat < (device_valid_after as u64))
}

/// Whether an access token issued at `iat` passes the cutoffs of its user
/// and device.
pub fn token_passes_cutoffs(iat: u64, user_valid_after: i64, device_valid_after: i64) -> (b: bool)
    ensures
        b == issued_after_cutoffs(iat, user_valid_after, device_valid_after),
{
    let u: u64 = #[verifier::truncate] (user_valid_after as u64);
    let d: u64 = #[verifier::truncate] (device_valid_after as u64);
    !(iat < u || iat < d)
}

/// The token of an `Authorization` header: what follows `Bearer `.
pub open spec fn bearer_of(header: Seq<char>) -> Option<Seq<char>> {
    if header.len() >= 7 && header.subrange(0, 7) == "Bearer "@ {
        Some(header.subrange(7, header.len() as int))
    } else {
        None
    }
}

/// The token of an `Authorization` header, if it is a bearer header.
pub fn bearer_token(header: &str) -> (r: Option<String>)
    ensures
        match bearer_of(header@) {
            Some(t) => r matches Some(s) && s@ == t,
            None => r is None,
        },
{
    let v = chars_of(header);
    if v.len() >= 7 && crate::text::range_eq_str(&v, 0, 7, "Bearer ") {
        Some(crate::text::string_from_range(&v, 7, v.len()))
    } else {
        None
    }
}

// ----- refresh-token rotation -----

/// What to do with a refresh request whose token matched no live session.
#[derive(Debug)]
pub enum StaleRefresh {
    /// A token that was rotated away is being reused: the user's account is
    /// compromised, so every session of this user is revoked.
    RevokeUser(String),
    /// Unknown or otherwise revoked: refuse without touching anything.
    Refuse,
}

/// The refusal every failed refresh answers with.
pub open spec fn refresh_refusal() -> Seq<char> {
    "Invalid or expired refresh token"@
}

/// The refusal for a device that may no longer refresh.
pub open spec fn device_refusal() -> Seq<char> {
    "Device is no longer authorized"@
}

/// Decides about a refresh token that matched no live session, given the
/// revoked token it matched (its user and the reason it was revoked), if any.
/// Reuse of a rotated token revokes the user's sessions; the request is
/// refused either way.
pub fn stale_refresh(revoked: Option<(String, String)>) -> (r: (StaleRefresh, AppError))
    ensures
        r.1 matches AppError::Unauthorized(m) && m@ == refresh_refusal(),
        match revoked {
            Some(p) => if p.1@ == "rotated"@ {
                r.0 == StaleRefresh::RevokeUser(p.0)
            } else {
                r.0 is Refuse
            },
            None => r.0 is Refuse,
        },
{
    let err = AppError::Unauthorized(String::from_str("Invalid or expired refresh token"));
    match revoked {
        Some((user_id, reason)) => {
            let rotated = String::from_str("rotated");
            if reason == rotated {
                (StaleRefresh::RevokeUser(user_id), err)
            } else {
                (StaleRefresh::Refuse, err)
            }
        },
        None => (StaleRefresh::Refuse, err),
    }
}

/// Whether consuming the presented refresh token went through: exactly one
/// live row must have been rotated. Anything else is a double spend, which
/// revokes the user's sessions and refuses the request.
pub fn rotation_went_through(rows_affected: u64) -> (ok: bool)
    ensures
        ok == (rows_affected == 1),
{
    rows_affected == 1
}

/// Decides whether the device may get a fresh access token: it must still
/// be registered and active, and the new token must not predate the
/// device's cutoff. On success the device's new cutoff is the token's issue
/// time if that is later than the old one.
pub fn refresh_device_check(device_row: Option<(i64, i64)>, access_iat: u64) -> (r: Result<i64, AppError>)
    ensures
        match device_row {
            None => r matches Err(AppError::Unauthorized(m)) && m@ == device_refusal(),
            Some(row) => if row.1 == 0 || access_iat < (row.0 as u64) {
                r matches Err(AppError::Unauthorized(m)) && m@ == device_refusal()
            } else {
                r matches Ok(v) && v == (if (access_iat as i64) > row.0 { access_iat as i64 } else { row.0 })
            },
        },
{
    let (valid_after, is_active) = match device_row {
        Some(row) => row,
        None => return Err(AppError::Unauthorized(String::from_str("Device is no longer authorized"))),
    };
    let cutoff: u64 = #[verifier::truncate] (valid_after as u64);
    if is_active == 0 || access_iat < cutoff {
        return Err(AppError::Unauthorized(String::from_str("Device is no longer authorized")));
    }
    let iat_signed: i64 = #[verifier::truncate] (access_iat as i64);
    Ok(if iat_signed > valid_after { iat_signed } else { valid_after })
}

// ----- sync push and pull -----

/// The most operations one push request may carry.
pub const MAX_PUSH_OPERATIONS: usize = 500;

/// Checks the size of a push batch: between 1 and 500 operations.
pub fn validate_push_batch(count: usize) -> (r: Result<(), AppError>)
    ensures
        count == 0 ==> (r matches Err(AppError::BadRequest(m)) && m@ == "No operations to push"@),
        count > 500 ==> (r matches Err(AppError::BadRequest(m)) && m@ == "Maximum 500 operations per push request"@),
        0 < count <= 500 ==> r is Ok,
{
    if count == 0 {
        return Err(AppError::BadRequest(String::from_str("No operations to push")));
    }
    if count > MAX_PUSH_OPERATIONS {
        return Err(AppError::BadRequest(String::from_str("Maximum 500 operations per push request")));
    }
    Ok(())
}

/// The page size of a pull: the asked limit (100 when none) clamped to 1..=1000.
pub open spec fn clamped_limit(limit: Option<i64>) -> i64 {
    let l = match limit {
        Some(v) => v,
        None => 100,
    };
    if l > 1000 { 1000 } else if l < 1 { 1 } else { l }
}

/// The page size of a pull request.
pub fn pull_limit(limit: Option<i64>) -> (l: i64)
    ensures
        l == clamped_limit(limit),
        1 <= l <= 1000,
{
    let l = match limit {
        Some(v) => v,
        None => 100,
    };
    if l > 1000 { 1000 } else if l < 1 { 1 } else { l }
}

/// One page of a pull from `limit + 1` fetched rows: at most `limit`
/// operations, whether more remain, and the cursor after the page (the last
/// operation's sequence number, or the request's cursor for an empty page).
pub fn pull_page(rows: Vec<PullOperation>, limit: i64, cursor: i64) -> (r: PullResponse)
    requires
        1 <= limit <= 1000,
    ensures
        r.has_more == (rows@.len() > limit),
        r.operations@ == (if rows@.len() > limit { rows@.subrange(0, limit as int) } else { rows@ }),
        r.next_cursor == (if r.operations@.len() > 0 { r.operations@.last().server_seq } else { cursor }),
{
    let lim: usize = limit as usize;
    let has_more = rows.len() > lim;
    let mut operations = rows;
    if has_more {
        operations.truncate(lim);
    }
    let next_cursor = if operations.len() > 0 { operations[operations.len() - 1].server_seq } else { cursor };
    PullResponse { operations, next_cursor, has_more }
}

// ----- uploads -----

/// The largest upload accepted, in bytes (500 MiB).
pub const MAX_FILE_SIZE: i64 = 524288000;

/// The chunk size used when none is asked for (4 MiB).
pub const DEFAULT_CHUNK_SIZE: i64 = 4194304;

/// The largest chunk size accepted (8 MiB).
pub const MAX_CHUNK_SIZE: i64 = 8388608;

/// Why an upload request is refused before anything is stored, if it is: a
/// size outside 1..=500 MiB, or a file name outside 1..=255 bytes.
pub open spec fn upload_request_problem(file_size: i64, name_len: nat) -> Option<Seq<char>> {
    if file_size <= 0 || file_size > MAX_FILE_SIZE {
        Some("File size must be between 1 byte and "@ + decimal(MAX_FILE_SIZE as nat) + " bytes"@)
    } else if name_len == 0 || name_len > 255 {
        Some("File name must be between 1 and 255 characters"@)
    } else {
        None
    }
}

/// Checks the size and name of an upload request.
pub fn validate_upload_request(file_size: i64, file_name: &str) -> (r: Result<(), AppError>)
    ensures
        match upload_request_problem(file_size, file_name.spec_bytes().len()) {
            Some(m) => r matches Err(AppError::BadRequest(s)) && s@ == m,
            None => r is Ok,
        },
{
    if file_size <= 0 || file_size > MAX_FILE_SIZE {
        let mut m = String::from_str("File size must be between 1 byte and ");
        push_decimal(&mut m, MAX_FILE_SIZE as u128);
        m.append(" bytes");
        return Err(AppError::BadRequest(m));
    }
    let n = file_name.as_bytes().len();
    if n == 0 || n > 255 {
        return Err(AppError::BadRequest(String::from_str("File name must be between 1 and 255 characters")));
    }
    Ok(())
}

/// The chunking of an upload: the chunk size (4 MiB when none is asked
/// for) must lie in 1024..=8 MiB; the number of chunks is the file size
/// divided by it, rounded up.
pub fn upload_chunking(chunk_size: Option<i64>, file_size: i64) -> (r: Result<(i64, i64), AppError>)
    requires
        0 < file_size <= MAX_FILE_SIZE,
    ensures
        ({
            let c = match chunk_size {
                Some(v) => v,
                None => DEFAULT_CHUNK_SIZE,
            };
            if c < 1024 || c > MAX_CHUNK_SIZE {
                r matches Err(AppError::BadRequest(m)) && m@ == "Chunk size must be between 1024 and "@
                    + decimal(MAX_CHUNK_SIZE as nat) + " bytes"@
            } else {
                r matches Ok(p) && p.0 == c && p.1 as int == (file_size + c - 1) / (c as int)
            }
        }),
{
    let c = match chunk_size {
        Some(v) => v,
        None => DEFAULT_CHUNK_SIZE,
    };
    if c < 1024 || c > MAX_CHUNK_SIZE {
        let mut m = String::from_str("Chunk size must be between 1024 and ");
        push_decimal(&mut m, MAX_CHUNK_SIZE as u128);
        m.append(" bytes");
        return Err(AppError::BadRequest(m));
    }
    let total = (file_size + c - 1) / c;
    Ok((c, total))
}

/// The refusal for an upload whose content is already stored for the user.
pub fn duplicate_file_error(file_id: &str) -> (e: AppError)
    ensures
        e matches AppError::Conflict(m) && m@ == "File with same hash already exists: "@ + file_id@,
{
    AppError::Conflict(concat_str("File with same hash already exists: ", file_id))
}

/// Checks that an upload session belongs to the requesting user.
pub fn check_session_owner(session_user_id: &String, user_id: &String) -> (r: Result<(), AppError>)
    ensures
        session_user_id@ == user_id@ ==> r is Ok,
        session_user_id@ != user_id@ ==> (r matches Err(AppError::Unauthorized(m)) && m@
            == "Upload session belongs to another user"@),
{
    if *session_user_id != *user_id {
        return Err(AppError::Unauthorized(String::from_str("Upload session belongs to another user")));
    }
    Ok(())
}

/// Checks a chunk index against the session's chunk count.
pub fn check_chunk_index(chunk_index: i64, total_chunks: i64) -> (r: Result<(), AppError>)
    requires
        total_chunks > i64::MIN,
    ensures
        0 <= chunk_index < total_chunks ==> r is Ok,
        !(0 <= chunk_index < total_chunks) ==> (r matches Err(AppError::BadRequest(m)) && m@
            == "Chunk index must be between 0 and "@ + signed_decimal(total_chunks - 1)),
{
    if chunk_index < 0 || chunk_index >= total_chunks {
        let last = i64_to_string(total_chunks - 1);
        return Err(AppError::BadRequest(concat_str("Chunk index must be between 0 and ", last.as_str())));
    }
    Ok(())
}

/// The name of a stored chunk: `chunk_` and the index in at least six
/// digits, zero-padded.
pub open spec fn chunk_file_name(index: nat) -> Seq<char> {
    let d = decimal(index);
    "chunk_"@ + Seq::new(if d.len() < 6 { (6 - d.len()) as nat } else { 0 }, |i: int| '0') + d
}

/// The file name under which chunk `index` is stored.
pub fn chunk_name(index: i64) -> (s: String)
    requires
        index >= 0,
    ensures
        s@ == chunk_file_name(index as nat),
{
    let digits = crate::numfmt::u64_to_string(index as u64);
    let n = digits.as_str().unicode_len();
    let mut s = String::from_str("chunk_");
    let ghost pre = s@;
    let mut k: usize = n;
    while k < 6
        invariant
            n <= k <= 6 || (n > 6 && k == n),
            s@ == pre + Seq::new((k - n) as nat, |i: int| '0'),
        decreases 6 - k,
    {
        push_char(&mut s, '0');
        assert(Seq::new((k + 1 - n) as nat, |i: int| '0') == Seq::new((k - n) as nat, |i: int| '0').push('0'));
        k = k + 1;
    }
    s.append(digits.as_str());
    s
}

/// Checks that every chunk arrived before an upload is completed.
pub fn check_chunk_count(total_chunks: i64, chunk_count: i64) -> (r: Result<(), AppError>)
    ensures
        chunk_count == total_chunks ==> r is Ok,
        chunk_count != total_chunks ==> (r matches Err(AppError::BadRequest(m)) && m@ == "Expected "@
            + signed_decimal(total_chunks as int) + " chunks, but only "@ + signed_decimal(chunk_count as int)
            + " received"@),
{
    if chunk_count != total_chunks {
        let mut m = String::from_str("Expected ");
        let a = i64_to_string(total_chunks);
        m.append(a.as_str());
        m.append(" chunks, but only ");
        let b = i64_to_string(chunk_count);
        m.append(b.as_str());
        m.append(" received");
        return Err(AppError::BadRequest(m));
    }
    Ok(())
}

/// Checks an assembled upload against what was announced: first its
/// digest, then its size.
pub fn check_assembled_file(expected_sha256: &String, actual_sha256: &String, file_size: i64, actual_size: i64) -> (r: Result<(), AppError>)
    ensures
        expected_sha256@ != actual_sha256@ ==> (r matches Err(AppError::BadRequest(m)) && m@
            == "SHA-256 mismatch: expected "@ + expected_sha256@ + ", got "@ + actual_sha256@),
        expected_sha256@ == actual_sha256@ && actual_size != file_size ==> (r matches Err(AppError::BadRequest(m))
            && m@ == "File size mismatch: expected "@ + signed_decimal(file_size as int) + ", got "@
            + signed_decimal(actual_size as int)),
        expected_sha256@ == actual_sha256@ && actual_size == file_size ==> r is Ok,
{
    if *actual_sha256 != *expected_sha256 {
        let mut m = String::from_str("SHA-256 mismatch: expected ");
        m.append(expected_sha256.as_str());
        m.append(", got ");
        m.append(actual_sha256.as_str());
        return Err(AppError::BadRequest(m));
    }
    if actual_size != file_size {
        let mut m = String::from_str("File size mismatch: expected ");
        let a = i64_to_string(file_size);
        m.append(a.as_str());
        m.append(", got ");
        let b = i64_to_string(actual_size);
        m.append(b.as_str());
        return Err(AppError::BadRequest(m));
    }
    Ok(())
}

/// A failure reported by the database layer: whether it came from the
/// database itself (rather than the connection or the driver), whether the
/// database classed it as a uniqueness violation, and its message.
#[derive(Debug, Clone)]
pub struct DbFailure {
    pub from_database: bool,
    pub unique_violation: bool,
    pub message: String,
}

/// Whether a database failure breaks a uniqueness constraint.
pub open spec fn is_unique_failure(f: DbFailure) -> bool {
    f.from_database && (f.unique_violation || contains_seq(f.message@, "UNIQUE constraint failed"@))
}

/// The application error for a database failure: a broken uniqueness
/// constraint is a conflict over an existing resource; anything else is a
/// database error with the failure's message.
pub fn app_error_from_db(f: DbFailure) -> (e: AppError)
    ensures
        is_unique_failure(f) ==> (e matches AppError::Conflict(c) && c@ == "Resource already exists"@),
        !is_unique_failure(f) ==> e == AppError::Database(f.message),
{
    let unique = f.from_database && (f.unique_violation || {
        let v = chars_of(f.message.as_str());
        contains_str(&v, "UNIQUE constraint failed")
    });
    if unique {
        AppError::Conflict(String::from_str("Resource already exists"))
    } else {
        AppError::Database(f.message)
    }
}

/// The error for a failure to create a user: a clash on the user name or on
/// the email address says which; anything else is mapped as any database
/// failure is.
pub fn map_register_insert_error(f: DbFailure) -> (e: AppError)
    ensures
        f.from_database && contains_seq(f.message@, "users.username"@) ==> (e matches AppError::Conflict(c) && c@
            == "Username already taken"@),
        f.from_database && !contains_seq(f.message@, "users.username"@) && contains_seq(f.message@, "users.email"@) ==> (
        e matches AppError::Conflict(c) && c@ == "Email already registered"@),
        !(f.from_database && (contains_seq(f.message@, "users.username"@) || contains_seq(f.message@, "users.email"@)))
            ==> (if is_unique_failure(f) {
            e matches AppError::Conflict(c) && c@ == "Resource already exists"@
        } else {
            e == AppError::Database(f.message)
        }),
{
    if f.from_database {
        let v = chars_of(f.message.as_str());
        if contains_str(&v, "users.username") {
            return AppError::Conflict(String::from_str("Username already taken"));
        }
        if contains_str(&v, "users.email") {
            return AppError::Conflict(String::from_str("Email already registered"));
        }
    }
    app_error_from_db(f)
}

/// Whether a database failure on recording a file is the uniqueness of the
/// user's file hash (by the constraint's name or columns in the message).
pub open spec fn is_duplicate_file_failure(message: Seq<char>) -> bool {
    contains_seq(message, "idx_user_files_active_sha256"@) || contains_seq(message, "user_files.user_id"@)
        || contains_seq(message, "user_files.sha256"@)
}

/// The error for a failure to record a completed upload: a clash with the
/// user's existing file of the same hash becomes a conflict; any other
/// error is kept.
pub fn map_user_file_insert_error(err: AppError, sha256: &str) -> (e: AppError)
    ensures
        (err matches AppError::Database(m) && is_duplicate_file_failure(m@)) ==> (e matches AppError::Conflict(c)
            && c@ == "File with same hash already exists: "@ + sha256@),
        !(err matches AppError::Database(m) && is_duplicate_file_failure(m@)) ==> e == err,
{
    let dup = match &err {
        AppError::Database(m) => {
            let v = chars_of(m.as_str());
            contains_str(&v, "idx_user_files_active_sha256") || contains_str(&v, "user_files.user_id")
                || contains_str(&v, "user_files.sha256")
        },
        _ => false,
    };
    if dup {
        return duplicate_file_error(sha256);
    }
    err
}

} // verus!

verus! {

// ----- configuration -----

/// The value of an optional setting read as an unsigned number no larger
/// than `max`, or `default` when it is absent or does not parse.
pub open spec fn setting_or(value: Option<Seq<char>>, max: int, default: int) -> int {
    match value {
        Some(s) => match crate::numfmt::parse_unsigned(s, max) {
            Some(v) => v,
            None => default,
        },
        None => default,
    }
}

fn u32_setting(value: &Option<String>, default: u32) -> (v: u32)
    ensures
        v == setting_or(
            match value {
                Some(s) => Some(s@),
                None => None,
            },
            u32::MAX as int,
            default as int,
        ),
{
    match value {
        Some(s) => match crate::numfmt::parse_u32_str(s.as_str()) {
            Some(v) => v,
            None => default,
        },
        None => default,
    }
}

fn u64_setting(value: &Option<String>, default: u64) -> (v: u64)
    ensures
        v == setting_or(
            match value {
                Some(s) => Some(s@),
                None => None,
            },
            u64::MAX as int,
            default as int,
        ),
{
    match value {
        Some(s) => match crate::numfmt::parse_u64_str(s.as_str()) {
            Some(v) => v,
            None => default,
        },
        None => default,
    }
}

pub open spec fn opt_view(o: Option<String>) -> Option<Seq<char>> {
    match o {
        Some(s) => Some(s@),
        None => None,
    }
}

/// The settings the server reads from its environment, as plain values
/// (`None` for a variable that is not set).
pub struct ConfigSource {
    pub database_url: Option<String>,
    pub jwt_secret: Option<String>,
    pub listen_addr: Option<String>,
    pub storage_path: Option<String>,
    pub db_pool_min: Option<String>,
    pub db_pool_max: Option<String>,
    pub access_token_expiry_secs: Option<String>,
    pub refresh_token_expiry_secs: Option<String>,
}

/// The configuration that a set of settings gives: the database URL and the
/// signing secret are required; the rest fall back to their defaults
/// (listen on `0.0.0.0:8080`, store under `./storage`, pool of 5 to 50,
/// access tokens for an hour, refresh tokens for 30 days) when absent or,
/// for numbers, when they do not parse.
pub fn config_from_source(src: ConfigSource) -> (r: Result<crate::server_types::AppConfig, String>)
    ensures
        src.database_url is None ==> (r matches Err(m) && m@ == "DATABASE_URL environment variable is required"@),
        src.database_url is Some && src.jwt_secret is None ==> (r matches Err(m) && m@
            == "JWT_SECRET environment variable is required"@),
        src.database_url is Some && src.jwt_secret is Some ==> (r matches Ok(c) && c.database_url
            == src.database_url.unwrap() && c.jwt_secret == src.jwt_secret.unwrap() && c.listen_addr@ == (
        match src.listen_addr {
            Some(a) => a@,
            None => "0.0.0.0:8080"@,
        }) && c.storage_path@ == (match src.storage_path {
            Some(p) => p@,
            None => "./storage"@,
        }) && c.db_pool_min == setting_or(opt_view(src.db_pool_min), u32::MAX as int, 5) && c.db_pool_max
            == setting_or(opt_view(src.db_pool_max), u32::MAX as int, 50) && c.access_token_expiry_secs
            == setting_or(opt_view(src.access_token_expiry_secs), u64::MAX as int, 3600)
            && c.refresh_token_expiry_secs == setting_or(
            opt_view(src.refresh_token_expiry_secs),
            u64::MAX as int,
            2592000,
        )),
{
    let database_url = match src.database_url {
        Some(v) => v,
        None => return Err(String::from_str("DATABASE_URL environment variable is required")),
    };
    let jwt_secret = match src.jwt_secret {
        Some(v) => v,
        None => return Err(String::from_str("JWT_SECRET environment variable is required")),
    };
    let listen_addr = match src.listen_addr {
        Some(v) => v,
        None => String::from_str("0.0.0.0:8080"),
    };
    let storage_path = match src.storage_path {
        Some(v) => v,
        None => String::from_str("./storage"),
    };
    let db_pool_min = u32_setting(&src.db_pool_min, 5);
    let db_pool_max = u32_setting(&src.db_pool_max, 50);
    let access_token_expiry_secs = u64_setting(&src.access_token_expiry_secs, 3600);
    let refresh_token_expiry_secs = u64_setting(&src.refresh_token_expiry_secs, 2592000);
    Ok(crate::server_types::AppConfig {
        database_url,
        jwt_secret,
        listen_addr,
        storage_path,
        db_pool_min,
        db_pool_max,
        access_token_expiry_secs,
        refresh_token_expiry_secs,
    })
}

// ----- digests -----

/// The SHA-256 digest of `data`.
pub uninterp spec fn sha256_of(data: Seq<u8>) -> Seq<u8>;

/// The SHA-256 digest of `data` (`sha2::Sha256::digest`), as its 32 bytes.
#[verifier::external_body]
pub(crate) fn sha256_digest(data: &[u8]) -> (d: Vec<u8>)
    ensures
        d@ == sha256_of(data@),
        d@.len() == 32,
{
    <sha2::Sha256 as sha2::Digest>::digest(data).to_vec()
}

/// The lower-case hexadecimal digit for `d < 16`.
pub open spec fn hex_digit_lower(d: int) -> char {
    if d < 10 { (d + 48) as char } else { (d - 10 + 97) as char }
}

/// The upper-case hexadecimal digit for `d < 16`.
pub open spec fn hex_digit_upper(d: int) -> char {
    if d < 10 { (d + 48) as char } else { (d - 10 + 65) as char }
}

/// Bytes as lower-case hexadecimal text, two digits per byte.
pub open spec fn hex_lower(b: Seq<u8>) -> Seq<char>
    decreases b.len(),
{
    if b.len() == 0 {
        Seq::empty()
    } else {
        hex_lower(b.drop_last()) + seq![hex_digit_lower((b.last() / 16) as int), hex_digit_lower((b.last() % 16) as int)]
    }
}

fn hex_char(d: u8, upper: bool) -> (c: char)
    requires
        d < 16,
    ensures
        upper ==> c == hex_digit_upper(d as int),
        !upper ==> c == hex_digit_lower(d as int),
{
    let b: u8 = if d < 10 { 48 + d } else if upper { 55 + d } else { 87 + d };
    b as char
}

/// Bytes as lower-case hexadecimal text.
pub fn to_hex_lower(b: &[u8]) -> (s: String)
    ensures
        s@ == hex_lower(b@),
{
    let mut s = String::new();
    let mut k: usize = 0;
    while k < b.len()
        invariant
            k <= b@.len(),
            s@ == hex_lower(b@.subrange(0, k as int)),
        decreases b@.len() - k,
    {
        let x = b[k];
        push_char(&mut s, hex_char(x / 16, false));
        push_char(&mut s, hex_char(x % 16, false));
        let ghost pre = b@.subrange(0, k as int);
        let ghost post = b@.subrange(0, k + 1);
        assert(post.drop_last() == pre);
        assert(post.last() == x);
        k = k + 1;
    }
    assert(b@.subrange(0, b@.len() as int) == b@);
    s
}

/// A fresh random refresh token: a version 4 UUID in its hyphenated form.
pub fn generate_refresh_token() -> (t: String)
    ensures
        crate::types::uuid_shaped(t@),
{
    crate::types::new_uuid_string()
}

/// Hash a refresh token for storage: the SHA-256 digest of its bytes, in
/// lower-case hexadecimal.
pub fn hash_refresh_token(token: &str) -> (h: String)
    ensures
        h@ == hex_lower(sha256_of(token.spec_bytes())),
        h@.len() == 64,
{
    let d = sha256_digest(token.as_bytes());
    let s = to_hex_lower(d.as_slice());
    proof {
        lemma_hex_lower_len(d@);
    }
    s
}

pub proof fn lemma_hex_lower_len(b: Seq<u8>)
    ensures
        hex_lower(b).len() == 2 * b.len(),
    decreases b.len(),
{
    if b.len() > 0 {
        lemma_hex_lower_len(b.drop_last());
    }
}

// ----- download headers -----

pub open spec fn is_ascii_alnum(x: u8) -> bool {
    (48 <= x <= 57) || (65 <= x <= 90) || (97 <= x <= 122)
}

/// A byte that may stand unquoted in the plain `filename` parameter.
pub open spec fn is_simple_name_byte(x: u8) -> bool {
    is_ascii_alnum(x) || x == 46 || x == 45 || x == 95 || x == 32
}

/// A byte that stays as it is when percent-encoded.
pub open spec fn is_unreserved_byte(x: u8) -> bool {
    is_ascii_alnum(x) || x == 46 || x == 45 || x == 95
}

/// RFC 5987 percent-encoding of bytes: unreserved bytes as themselves,
/// others as `%` and two upper-case hexadecimal digits.
pub open spec fn percent_encoded(b: Seq<u8>) -> Seq<char>
    decreases b.len(),
{
    if b.len() == 0 {
        Seq::empty()
    } else {
        let x = b.last();
        percent_encoded(b.drop_last()) + if is_unreserved_byte(x) {
            seq![x as char]
        } else {
            seq!['%', hex_digit_upper((x / 16) as int), hex_digit_upper((x % 16) as int)]
        }
    }
}

/// The ASCII fallback of a file name: non-ASCII characters and double
/// quotes become `_`.
pub open spec fn ascii_fallback(s: Seq<char>) -> Seq<char> {
    s.map_values(|c: char| if c < '\u{80}' && c != '"' { c } else { '_' })
}

/// The `Content-Disposition` value for downloading a file of this name.
pub open spec fn content_disposition(name: Seq<char>, bytes: Seq<u8>) -> Seq<char> {
    if forall|i: int| 0 <= i < bytes.len() ==> is_simple_name_byte(#[trigger] bytes[i]) {
        "attachment; filename=\""@ + name + "\""@
    } else {
        "attachment; filename=\""@ + ascii_fallback(name) + "\"; filename*=UTF-8''"@ + percent_encoded(bytes)
    }
}

fn is_alnum_byte(x: u8) -> (b: bool)
    ensures
        b == is_ascii_alnum(x),
{
    (48 <= x && x <= 57) || (65 <= x && x <= 90) || (97 <= x && x <= 122)
}

/// Encode a filename for the `Content-Disposition` header (RFC 5987): a
/// plain quoted name when it holds only letters, digits, `.`, `-`, `_` and
/// spaces; else an ASCII fallback name and the percent-encoded UTF-8 name.
pub fn encode_content_disposition(file_name: &str) -> (r: String)
    ensures
        r@ == content_disposition(file_name@, file_name.spec_bytes()),
{
    let bytes = file_name.as_bytes();
    let mut simple = true;
    let mut k: usize = 0;
    while k < bytes.len()
        invariant
            k <= bytes@.len(),
            simple == forall|i: int| 0 <= i < k ==> is_simple_name_byte(#[trigger] bytes@[i]),
        decreases bytes@.len() - k,
    {
        let x = bytes[k];
        if !(is_alnum_byte(x) || x == 46u8 || x == 45u8 || x == 95u8 || x == 32u8) {
            simple = false;
        }
        k = k + 1;
    }
    if simple {
        let mut r = String::from_str("attachment; filename=\"");
        r.append(file_name);
        r.append("\"");
        return r;
    }
    let mut encoded = String::new();
    let mut k: usize = 0;
    while k < bytes.len()
        invariant
            k <= bytes@.len(),
            encoded@ == percent_encoded(bytes@.subrange(0, k as int)),
        decreases bytes@.len() - k,
    {
        let x = bytes[k];
        let ghost pre = bytes@.subrange(0, k as int);
        let ghost post = bytes@.subrange(0, k + 1);
        assert(post.drop_last() == pre);
        assert(post.last() == x);
        if is_alnum_byte(x) || x == 46u8 || x == 45u8 || x == 95u8 {
            push_char(&mut encoded, x as char);
        } else {
            push_char(&mut encoded, '%');
            push_char(&mut encoded, hex_char(x / 16, true));
            push_char(&mut encoded, hex_char(x % 16, true));
        }
        k = k + 1;
    }
    assert(bytes@.subrange(0, bytes@.len() as int) == bytes@);
    let chars = chars_of(file_name);
    let mut fallback = String::new();
    let mut j: usize = 0;
    while j < chars.len()
        invariant
            j <= chars.len(),
            fallback@ == ascii_fallback(chars@.subrange(0, j as int)),
        decreases chars.len() - j,
    {
        let c = chars[j];
        let f = if c < '\u{80}' && c != '"' { c } else { '_' };
        push_char(&mut fallback, f);
        assert(ascii_fallback(chars@.subrange(0, j + 1)) == ascii_fallback(chars@.subrange(0, j as int)).push(f));
        j = j + 1;
    }
    assert(chars@.subrange(0, chars@.len() as int) == chars@);
    let mut r = String::from_str("attachment; filename=\"");
    r.append(fallback.as_str());
    r.append("\"; filename*=UTF-8''");
    r.append(encoded.as_str());
    r
}

} // verus!

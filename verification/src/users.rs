//! User records as the admin endpoints see them: identifiers, linked
//! identities, stored permissions, how a user search is run, and the
//! response a user record becomes.

use vstd::prelude::*;
use vstd::arithmetic::power2::pow2;
use vstd::string::StrSliceExecFns;
use vstd::string::StringExecFns;
use vstd::string::StringSliceAdditionalSpecFns;

use crate::calendar::digit_char;
use crate::errors::DecodeError;
use crate::permissions::PermissionNames;
use crate::roles::effective_role;
use crate::roles::effective_role_of;
use crate::text::all_ascii_digits;
use crate::text::has_prefix;
use crate::text::is_ascii_digit_char;
use crate::text::trim_end_text;
use crate::text::trim_start_text;
use crate::text::is_all_ascii_digits;
use crate::text::starts_with_text;
use crate::text::trim_text;
use crate::text::trimmed_text;

verus! {

/// A record identifier: the 128-bit value of a UUID (its bytes read
/// big-endian, as `Uuid::as_u128` gives them).
#[derive(Clone, Copy, Debug, PartialEq, Eq, Hash, Structural)]
pub struct RecordId(pub u128);

/// The lower-case hexadecimal digit of a value from 0 to 15.
pub open spec fn hex_digit_char(n: int) -> char {
    if n < 10 {
        digit_char(n)
    } else if n == 10 {
        'a'
    } else if n == 11 {
        'b'
    } else if n == 12 {
        'c'
    } else if n == 13 {
        'd'
    } else if n == 14 {
        'e'
    } else {
        'f'
    }
}

/// The `i`-th of the 32 hexadecimal digits of a 128-bit value, most
/// significant first.
pub open spec fn uuid_nibble(value: u128, i: int) -> int {
    ((value as int) / (pow2((4 * (31 - i)) as nat) as int)) % 16
}

/// The 32 lower-case hexadecimal digits of a 128-bit value.
pub open spec fn uuid_simple_text(value: u128) -> Seq<char> {
    Seq::new(32, |i: int| hex_digit_char(uuid_nibble(value, i)))
}

/// The hyphenated lower-case text of a UUID, `xxxxxxxx-xxxx-xxxx-xxxx-xxxxxxxxxxxx`.
pub open spec fn uuid_hyphenated_text(value: u128) -> Seq<char> {
    let s = uuid_simple_text(value);
    s.subrange(0, 8) + seq!['-'] + s.subrange(8, 12) + seq!['-'] + s.subrange(12, 16) + seq!['-']
        + s.subrange(16, 20) + seq!['-'] + s.subrange(20, 32)
}

/// The value `uuid::Uuid::parse_str` reads from a text (as `as_u128`), or
/// `None` where it reports an error; the accepted forms are left to uuid.
pub uninterp spec fn uuid_parsed(text: Seq<char>) -> Option<u128>;

/// `Uuid::from_u128(v).to_string()`: uuid's `Display`, the hyphenated
/// lower-case form, stated in full.
#[verifier::external_body]
fn uuid_text(id: RecordId) -> (text: String)
    ensures
        text@ == uuid_hyphenated_text(id.0),
{
    uuid::Uuid::from_u128(id.0).to_string()
}

/// `Uuid::parse_str`: what it accepts is only named.
#[verifier::external_body]
fn parse_uuid(text: &str) -> (parsed: Result<RecordId, uuid::Error>)
    ensures
        parsed is Ok <==> uuid_parsed(text@) is Some,
        parsed matches Ok(id) ==> uuid_parsed(text@) == Some(id.0),
{
    match uuid::Uuid::parse_str(text) {
        Ok(id) => Ok(RecordId(id.as_u128())),
        Err(error) => Err(error),
    }
}

/// Reads a stored record identifier.
pub fn record_id_from_text(text: &str) -> (id: Result<RecordId, DecodeError>)
    ensures
        id is Ok <==> uuid_parsed(text@) is Some,
        id matches Ok(v) ==> uuid_parsed(text@) == Some(v.0),
        id matches Err(e) ==> e is InvalidUuid,
{
    match parse_uuid(text) {
        Ok(id) => Ok(id),
        Err(error) => Err(DecodeError::InvalidUuid(error)),
    }
}

/// An external account linked to a user.
pub struct StoredIdentity {
    pub id: RecordId,
    pub provider: String,
    pub provider_user_id: String,
    pub display_name: Option<String>,
    pub avatar_url: Option<String>,
}

/// A stored identity row: id, provider, provider user id, display name,
/// avatar URL.
pub type StoredIdentityRow = (String, String, String, Option<String>, Option<String>);

/// An identity holds the values of its stored row.
pub open spec fn identity_matches_row(identity: StoredIdentity, row: StoredIdentityRow) -> bool {
    &&& uuid_parsed(row.0@) == Some(identity.id.0)
    &&& identity.provider == row.1
    &&& identity.provider_user_id == row.2
    &&& identity.display_name == row.3
    &&& identity.avatar_url == row.4
}

fn clone_optional_text(text: &Option<String>) -> (copy: Option<String>)
    ensures
        copy == *text,
{
    match text {
        Some(t) => Some(t.clone()),
        None => None,
    }
}

/// Reads the stored identity rows of a user, failing on the first row whose
/// identifier is not a UUID.
pub fn identities_from_rows(rows: &Vec<StoredIdentityRow>) -> (identities: Result<
    Vec<StoredIdentity>,
    DecodeError,
>)
    ensures
        identities is Ok <==> forall|i: int|
            0 <= i < rows@.len() ==> (#[trigger] uuid_parsed(rows@[i].0@)) is Some,
        identities matches Ok(list) ==> list@.len() == rows@.len() && forall|i: int|
            0 <= i < rows@.len() ==> identity_matches_row(#[trigger] list@[i], rows@[i]),
        identities matches Err(e) ==> e is InvalidUuid,
{
    let mut list: Vec<StoredIdentity> = Vec::new();
    let mut i: usize = 0;
    while i < rows.len()
        invariant
            i <= rows@.len(),
            list@.len() == i,
            forall|j: int| 0 <= j < i ==> (#[trigger] uuid_parsed(rows@[j].0@)) is Some,
            forall|j: int| 0 <= j < i ==> identity_matches_row(#[trigger] list@[j], rows@[j]),
        decreases rows@.len() - i,
    {
        let row = &rows[i];
        let id = match record_id_from_text(row.0.as_str()) {
            Ok(id) => id,
            Err(error) => {
                return Err(error);
            },
        };
        list.push(
            StoredIdentity {
                id,
                provider: row.1.clone(),
                provider_user_id: row.2.clone(),
                display_name: clone_optional_text(&row.3),
                avatar_url: clone_optional_text(&row.4),
            },
        );
        i = i + 1;
    }
    Ok(list)
}

/// Whether any linked identity is one the configuration lists as a root
/// administrator; `is_configured` is asked for each identity's provider and
/// provider account id in turn, until it answers `true`.
pub fn has_configured_identity<F: Fn(&String, &String) -> bool>(
    identities: &Vec<StoredIdentity>,
    is_configured: F,
) -> (matched: bool)
    requires
        forall|provider: &String, provider_user_id: &String| #[trigger]
            is_configured.requires((provider, provider_user_id)),
    ensures
        matched ==> exists|i: int|
            0 <= i < identities@.len() && is_configured.ensures(
                (&(#[trigger] identities@[i]).provider, &identities@[i].provider_user_id),
                true,
            ),
        !matched ==> forall|i: int|
            0 <= i < identities@.len() ==> is_configured.ensures(
                (&(#[trigger] identities@[i]).provider, &identities@[i].provider_user_id),
                false,
            ),
{
    let mut i: usize = 0;
    while i < identities.len()
        invariant
            i <= identities@.len(),
            forall|provider: &String, provider_user_id: &String| #[trigger]
                is_configured.requires((provider, provider_user_id)),
            forall|j: int|
                0 <= j < i ==> is_configured.ensures(
                    (&(#[trigger] identities@[j]).provider, &identities@[j].provider_user_id),
                    false,
                ),
        decreases identities@.len() - i,
    {
        let identity = &identities[i];
        if is_configured(&identity.provider, &identity.provider_user_id) {
            return true;
        }
        i = i + 1;
    }
    false
}

/// A user as the admin pages list it.
pub struct AdminUserRecord {
    pub id: RecordId,
    pub username: Option<String>,
    pub display_name: Option<String>,
    pub role: String,
    pub identities: Vec<StoredIdentity>,
    pub permissions: PermissionNames,
}

/// What a user record shows when it is printed for diagnostics: the
/// identities are reduced to their number, so no provider account id is
/// ever printed.
#[derive(Debug)]
pub struct AdminUserRecordSummary<'a> {
    pub id: RecordId,
    pub username: &'a Option<String>,
    pub display_name: &'a Option<String>,
    pub role: &'a String,
    pub identity_count: usize,
    pub permissions: &'a PermissionNames,
}

impl AdminUserRecord {
    /// The printable summary of a record.
    pub fn summary(&self) -> (summary: AdminUserRecordSummary<'_>)
        ensures
            summary.id == self.id,
            *summary.username == self.username,
            *summary.display_name == self.display_name,
            *summary.role == self.role,
            summary.identity_count == self.identities@.len(),
            *summary.permissions == self.permissions,
    {
        AdminUserRecordSummary {
            id: self.id,
            username: &self.username,
            display_name: &self.display_name,
            role: &self.role,
            identity_count: self.identities.len(),
            permissions: &self.permissions,
        }
    }
}

/// A provider account id as shown to admins: the provider, a colon, four
/// stars, and the last four characters of the id when it is longer than
/// four characters.
pub open spec fn masked_id_text(provider: Seq<char>, provider_user_id: Seq<char>) -> Seq<char> {
    provider + ":****"@ + if provider_user_id.len() <= 4 {
        Seq::<char>::empty()
    } else {
        provider_user_id.subrange(provider_user_id.len() - 4, provider_user_id.len() as int)
    }
}

/// Masks a provider account id for display.
pub fn mask_provider_user_id(provider: &str, provider_user_id: &str) -> (masked: String)
    ensures
        masked@ == masked_id_text(provider@, provider_user_id@),
{
    let mut masked: String = provider.to_owned();
    masked.append(":****");
    let length = provider_user_id.unicode_len();
    if length > 4 {
        masked.append(provider_user_id.substring_char(length - 4, length));
    } else {
        assert(masked@ =~= masked_id_text(provider@, provider_user_id@));
    }
    masked
}

/// A masked id starts with the provider and `:****`; an id longer than four
/// characters, of any length, ends the masked text with its own last four
/// characters, and a shorter id shows none of its characters.
pub proof fn lemma_mask_shows_only_last_four(provider: Seq<char>, provider_user_id: Seq<char>)
    ensures
        masked_id_text(provider, provider_user_id).subrange(0, provider.len() as int) == provider,
        masked_id_text(provider, provider_user_id).subrange(
            provider.len() as int,
            provider.len() as int + 5,
        ) == seq![':', '*', '*', '*', '*'],
        provider_user_id.len() > 4 ==> masked_id_text(provider, provider_user_id).len()
            == provider.len() as int + 9,
        provider_user_id.len() > 4 ==> masked_id_text(provider, provider_user_id).subrange(
            provider.len() as int + 5,
            provider.len() as int + 9,
        ) == provider_user_id.subrange(
            provider_user_id.len() - 4,
            provider_user_id.len() as int,
        ),
        provider_user_id.len() <= 4 ==> masked_id_text(provider, provider_user_id).len()
            == provider.len() as int + 5,
{
    reveal_strlit(":****");
    let masked = masked_id_text(provider, provider_user_id);
    assert(masked.subrange(0, provider.len() as int) =~= provider);
    assert(masked.subrange(provider.len() as int, provider.len() as int + 5) =~= seq![
        ':',
        '*',
        '*',
        '*',
        '*',
    ]);
    if provider_user_id.len() > 4 {
        assert(masked.subrange(provider.len() as int + 5, provider.len() as int + 9) =~= provider_user_id.subrange(
            provider_user_id.len() - 4,
            provider_user_id.len() as int,
        ));
    }
}

/// Two ids longer than four characters that end in the same four
/// characters are masked alike for the same provider.
pub proof fn lemma_mask_depends_on_last_four(
    provider: Seq<char>,
    first_id: Seq<char>,
    second_id: Seq<char>,
)
    requires
        first_id.len() > 4,
        second_id.len() > 4,
        first_id.subrange(first_id.len() - 4, first_id.len() as int) == second_id.subrange(
            second_id.len() - 4,
            second_id.len() as int,
        ),
    ensures
        masked_id_text(provider, first_id) == masked_id_text(provider, second_id),
{
    lemma_mask_shows_only_last_four(provider, first_id);
    lemma_mask_shows_only_last_four(provider, second_id);
    let a = masked_id_text(provider, first_id);
    let b = masked_id_text(provider, second_id);
    assert(a =~= a.subrange(0, provider.len() as int) + a.subrange(
        provider.len() as int,
        provider.len() as int + 5,
    ) + a.subrange(provider.len() as int + 5, provider.len() as int + 9));
    assert(b =~= b.subrange(0, provider.len() as int) + b.subrange(
        provider.len() as int,
        provider.len() as int + 5,
    ) + b.subrange(provider.len() as int + 5, provider.len() as int + 9));
}

/// The id part of a (trimmed) Discord search: the text after a leading
/// `discord:`, or the whole text.
pub open spec fn discord_query_id(query: Seq<char>) -> Seq<char> {
    if has_prefix(query, "discord:"@) {
        query.subrange("discord:"@.len() as int, query.len() as int)
    } else {
        query
    }
}

/// Whether a (trimmed) search looks for a Discord account: it starts with
/// `discord:`, or it is a non-empty run of ASCII digits.
pub open spec fn is_discord_query(query: Seq<char>) -> bool {
    ||| has_prefix(query, "discord:"@)
    ||| discord_query_id(query).len() > 0 && all_ascii_digits(discord_query_id(query))
}

/// `key` is a text `derive_key` gives for the secret's bytes and the
/// Discord id of the trimmed query.
pub open spec fn is_derived_search_key<F: Fn(&[u8], &str) -> String>(
    derive_key: F,
    secret: Seq<u8>,
    query: Seq<char>,
    key: String,
) -> bool {
    exists|secret_bytes: &[u8], raw_id: &str|
        secret_bytes@ == secret && raw_id@ == discord_query_id(trimmed_text(query))
            && #[trigger] derive_key.ensures((secret_bytes, raw_id), key)
}

/// A key derivation whose text depends only on the bytes and characters it
/// is given (as a keyed hash does).
pub open spec fn derives_by_value<F: Fn(&[u8], &str) -> String>(derive_key: F) -> bool {
    forall|b1: &[u8], b2: &[u8], r1: &str, r2: &str, k1: String, k2: String|
        #![trigger derive_key.ensures((b1, r1), k1), derive_key.ensures((b2, r2), k2)]
        b1@ == b2@ && r1@ == r2@ && derive_key.ensures((b1, r1), k1) && derive_key.ensures(
            (b2, r2),
            k2,
        ) ==> k1@ == k2@
}

/// The search key of a Discord account search: `derive_key` is handed the
/// secret's bytes and the Discord id of the trimmed query, and its text is
/// the key. There is no key when the query is not a Discord search or the
/// secret is empty.
pub fn raw_discord_search_key<F: Fn(&[u8], &str) -> String>(
    query: &str,
    secret: &str,
    derive_key: F,
) -> (key: Option<String>)
    requires
        forall|secret_bytes: &[u8], raw_id: &str| #[trigger]
            derive_key.requires((secret_bytes, raw_id)),
    ensures
        key is Some <==> is_discord_query(trimmed_text(query@)) && secret@.len() > 0,
        key matches Some(k) ==> is_derived_search_key(derive_key, secret.spec_bytes(), query@, k),
{
    let trimmed = trim_text(query);
    let length = trimmed.unicode_len();
    let prefixed = starts_with_text(trimmed, "discord:");
    let raw_id = if prefixed {
        let prefix_length = "discord:".unicode_len();
        trimmed.substring_char(prefix_length, length)
    } else {
        trimmed
    };
    let is_discord_query = prefixed || (raw_id.unicode_len() > 0 && is_all_ascii_digits(raw_id));
    if !is_discord_query || secret.unicode_len() == 0 {
        return None;
    }
    let secret_bytes = secret.as_bytes();
    let key = derive_key(secret_bytes, raw_id);
    let result = Some(key);
    assert(derive_key.ensures((secret_bytes, raw_id), result->0));
    result
}

/// A Discord id written as `discord:<id>`, as `<id>`, or with surrounding
/// spaces, is the same Discord search for the same id.
pub proof fn lemma_discord_spellings_agree(digits: Seq<char>)
    requires
        digits.len() > 0,
        all_ascii_digits(digits),
    ensures
        is_discord_query(trimmed_text("discord:"@ + digits)),
        is_discord_query(trimmed_text(digits)),
        is_discord_query(trimmed_text(seq![' ', ' '] + digits + seq![' ', ' '])),
        discord_query_id(trimmed_text("discord:"@ + digits)) == digits,
        discord_query_id(trimmed_text(digits)) == digits,
        discord_query_id(trimmed_text(seq![' ', ' '] + digits + seq![' ', ' '])) == digits,
{
    reveal_strlit("discord:");
    let prefixed = "discord:"@ + digits;
    let spaced = seq![' ', ' '] + digits + seq![' ', ' '];
    assert(digits[0] == digits[0] && is_ascii_digit_char(digits[0]));
    assert(is_ascii_digit_char(digits.last()));
    assert(prefixed[0] == 'd');
    assert(prefixed.last() == digits.last());
    assert(trim_start_text(prefixed) == prefixed);
    assert(trim_end_text(prefixed) == prefixed);
    assert(prefixed.subrange(0, 8) =~= "discord:"@);
    assert(prefixed.subrange(8, prefixed.len() as int) =~= digits);
    assert(trim_start_text(digits) == digits);
    assert(trim_end_text(digits) == digits);
    assert(!has_prefix(digits, "discord:"@)) by {
        if digits.len() >= 8 {
            assert(digits.subrange(0, 8)[0] == digits[0]);
        }
    }
    assert(spaced.drop_first().drop_first() =~= digits + seq![' ', ' ']);
    assert(trim_start_text(spaced) == trim_start_text(spaced.drop_first()));
    assert(trim_start_text(spaced.drop_first()) == trim_start_text(
        spaced.drop_first().drop_first(),
    ));
    let tail = digits + seq![' ', ' '];
    assert(tail[0] == digits[0]);
    assert(trim_start_text(tail) == tail);
    assert(tail.drop_last().drop_last() =~= digits);
    assert(trim_end_text(tail) == trim_end_text(tail.drop_last()));
    assert(trim_end_text(tail.drop_last()) == trim_end_text(tail.drop_last().drop_last()));
}

/// Two searches for the same Discord id get the same key from a derivation
/// that depends only on its inputs.
pub proof fn lemma_same_discord_id_same_key<F: Fn(&[u8], &str) -> String>(
    derive_key: F,
    secret: Seq<u8>,
    first_query: Seq<char>,
    second_query: Seq<char>,
    first_key: String,
    second_key: String,
)
    requires
        derives_by_value(derive_key),
        discord_query_id(trimmed_text(first_query)) == discord_query_id(trimmed_text(second_query)),
        is_derived_search_key(derive_key, secret, first_query, first_key),
        is_derived_search_key(derive_key, secret, second_query, second_key),
    ensures
        first_key@ == second_key@,
{
    let (b1, r1) = choose|b: &[u8], r: &str|
        b@ == secret && r@ == discord_query_id(trimmed_text(first_query))
            && #[trigger] derive_key.ensures((b, r), first_key);
    let (b2, r2) = choose|b: &[u8], r: &str|
        b@ == secret && r@ == discord_query_id(trimmed_text(second_query))
            && #[trigger] derive_key.ensures((b, r), second_key);
    assert(derive_key.ensures((b1, r1), first_key) && derive_key.ensures((b2, r2), second_key));
}

/// With a derivation that depends only on its inputs, `discord:<id>`,
/// `<id>` and `  <id>  ` get equal search keys.
pub proof fn lemma_discord_spellings_share_key<F: Fn(&[u8], &str) -> String>(
    derive_key: F,
    secret: Seq<u8>,
    digits: Seq<char>,
    prefixed_key: String,
    plain_key: String,
    spaced_key: String,
)
    requires
        digits.len() > 0,
        all_ascii_digits(digits),
        derives_by_value(derive_key),
        is_derived_search_key(derive_key, secret, "discord:"@ + digits, prefixed_key),
        is_derived_search_key(derive_key, secret, digits, plain_key),
        is_derived_search_key(
            derive_key,
            secret,
            seq![' ', ' '] + digits + seq![' ', ' '],
            spaced_key,
        ),
    ensures
        prefixed_key@ == plain_key@,
        plain_key@ == spaced_key@,
{
    lemma_discord_spellings_agree(digits);
    lemma_same_discord_id_same_key(
        derive_key,
        secret,
        "discord:"@ + digits,
        digits,
        prefixed_key,
        plain_key,
    );
    lemma_same_discord_id_same_key(
        derive_key,
        secret,
        digits,
        seq![' ', ' '] + digits + seq![' ', ' '],
        plain_key,
        spaced_key,
    );
}

/// The most users one search returns, and the fewest.
pub const USER_SEARCH_MAX_LIMIT: i64 = 50;

pub const USER_SEARCH_MIN_LIMIT: i64 = 1;

/// The page size the admin user list asks for.
pub const ADMIN_USER_LIST_LIMIT: i64 = 50;

/// A limit brought into the range a search allows.
pub open spec fn clamped_search_limit(limit: int) -> int {
    if limit < USER_SEARCH_MIN_LIMIT {
        USER_SEARCH_MIN_LIMIT as int
    } else if limit > USER_SEARCH_MAX_LIMIT {
        USER_SEARCH_MAX_LIMIT as int
    } else {
        limit
    }
}

/// A search asks for at least one and at most fifty users, and for exactly
/// the requested number when that lies in between.
pub proof fn lemma_search_limit_in_range(limit: int)
    ensures
        1 <= clamped_search_limit(limit) <= 50,
        1 <= limit <= 50 ==> clamped_search_limit(limit) == limit,
        limit < 1 ==> clamped_search_limit(limit) == 1,
        limit > 50 ==> clamped_search_limit(limit) == 50,
{
}

/// How the user table is searched: a `LIKE` pattern on the user name and on
/// `provider:provider_user_id` (no pattern: every user), and a row limit.
pub struct UserSearch {
    pub pattern: Option<String>,
    pub limit: i64,
}

/// Plans a user search: the query is trimmed, an empty query searches
/// everything, and the limit is clamped to 1..=50.
pub fn plan_user_search(query: Option<&str>, limit: i64) -> (search: UserSearch)
    ensures
        search.limit == clamped_search_limit(limit as int),
        search.pattern is Some <==> (query matches Some(q) && trimmed_text(q@).len() > 0),
        search.pattern matches Some(p) ==> p@ == "%"@ + trimmed_text(query->0@) + "%"@,
{
    let limit = if limit < USER_SEARCH_MIN_LIMIT {
        USER_SEARCH_MIN_LIMIT
    } else if limit > USER_SEARCH_MAX_LIMIT {
        USER_SEARCH_MAX_LIMIT
    } else {
        limit
    };
    let pattern = match query {
        Some(q) => {
            let trimmed = trim_text(q);
            if trimmed.unicode_len() == 0 {
                None
            } else {
                let mut pattern: String = "%".to_owned();
                pattern.append(trimmed);
                pattern.append("%");
                Some(pattern)
            }
        },
        None => None,
    };
    UserSearch { pattern, limit }
}

/// A linked identity as the admin user list shows it.
pub struct AdminIdentityResponse {
    pub provider: String,
    pub masked_id: String,
}

/// Which permissions a listed user holds.
pub struct AdminPermissionsResponse {
    pub upload_local_images: bool,
    pub view_admin_stats: bool,
    pub manage_permissions: bool,
}

/// A user as the admin user list shows it.
pub struct AdminUserResponse {
    pub id: String,
    pub username: Option<String>,
    pub display_name: Option<String>,
    pub role: String,
    pub is_root_admin: bool,
    pub identities: Vec<AdminIdentityResponse>,
    pub permissions: AdminPermissionsResponse,
}

/// The shown identity of a stored identity.
pub open spec fn identity_response_matches(
    response: AdminIdentityResponse,
    identity: StoredIdentity,
) -> bool {
    &&& response.provider == identity.provider
    &&& response.masked_id@ == masked_id_text(identity.provider@, identity.provider_user_id@)
}

/// Turns a user record into what the admin user list shows: the id as UUID
/// text, the effective role, masked identities and the permission flags.
pub fn map_user(user: AdminUserRecord, is_root_admin: bool) -> (response: AdminUserResponse)
    ensures
        response.id@ == uuid_hyphenated_text(user.id.0),
        response.username == user.username,
        response.display_name == user.display_name,
        response.role@ == effective_role_of(user.role@, is_root_admin),
        response.is_root_admin == is_root_admin,
        response.identities@.len() == user.identities@.len(),
        forall|i: int|
            0 <= i < user.identities@.len() ==> identity_response_matches(
                #[trigger] response.identities@[i],
                user.identities@[i],
            ),
        response.permissions.upload_local_images == user.permissions@.contains(
            "upload_local_images"@,
        ),
        response.permissions.view_admin_stats == user.permissions@.contains("view_admin_stats"@),
        response.permissions.manage_permissions == user.permissions@.contains(
            "manage_permissions"@,
        ),
{
    let mut identities: Vec<AdminIdentityResponse> = Vec::new();
    let mut i: usize = 0;
    while i < user.identities.len()
        invariant
            i <= user.identities@.len(),
            identities@.len() == i,
            forall|j: int|
                0 <= j < i ==> identity_response_matches(
                    #[trigger] identities@[j],
                    user.identities@[j],
                ),
        decreases user.identities@.len() - i,
    {
        let identity = &user.identities[i];
        let masked_id = mask_provider_user_id(
            identity.provider.as_str(),
            identity.provider_user_id.as_str(),
        );
        identities.push(AdminIdentityResponse { provider: identity.provider.clone(), masked_id });
        i = i + 1;
    }
    let permissions = AdminPermissionsResponse {
        upload_local_images: user.permissions.contains("upload_local_images"),
        view_admin_stats: user.permissions.contains("view_admin_stats"),
        manage_permissions: user.permissions.contains("manage_permissions"),
    };
    let role: String = effective_role(user.role.as_str(), is_root_admin).to_owned();
    AdminUserResponse {
        id: uuid_text(user.id),
        username: user.username,
        display_name: user.display_name,
        role,
        is_root_admin,
        identities,
        permissions,
    }
}

} // verus!

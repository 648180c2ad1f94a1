use vstd::prelude::*;

use crate::text::same_text;

verus! {

/// Who is calling: tenant, user, display name and role memberships.
#[derive(Debug)]
pub struct RequestContext {
    pub tenant_id: i32,
    pub user_id: String,
    pub username: String,
    pub role_ids: Vec<String>,
}

/// Client identity taken from a mutual-TLS certificate.
#[derive(Debug, Clone)]
pub struct ClientInfo {
    pub common_name: String,
    pub organization: String,
}

/// Why request metadata does not identify a caller.
#[derive(Debug, Clone, Copy, PartialEq, Eq, Structural)]
pub enum ContextError {
    /// No usable tenant, and the caller is no platform administrator.
    InvalidTenant,
    /// No user identifier.
    MissingUser,
}

impl ContextError {
    pub open spec fn text(self) -> Seq<char> {
        match self {
            ContextError::InvalidTenant => "missing or invalid tenant_id"@,
            ContextError::MissingUser => "missing user_id"@,
        }
    }

    /// The caller-facing message.
    pub fn message(&self) -> (r: &'static str)
        ensures
            r@ == self.text(),
    {
        match self {
            ContextError::InvalidTenant => "missing or invalid tenant_id",
            ContextError::MissingUser => "missing user_id",
        }
    }
}

/// Whether `c` is an ASCII decimal digit.
pub open spec fn is_digit(c: char) -> bool {
    '0' as u32 <= c as u32 && c as u32 <= '9' as u32
}

/// The value of a string of decimal digits, most significant first.
pub open spec fn digits_value(s: Seq<char>) -> int
    decreases s.len(),
{
    if s.len() == 0 {
        0
    } else {
        10 * digits_value(s.drop_last()) + (s.last() as u32 - '0' as u32)
    }
}

/// The `i32` written in `s` as an optional `+` or `-` sign and one or more
/// decimal digits, with nothing else around them, if it is in range.
pub open spec fn decimal_i32(s: Seq<char>) -> Option<i32> {
    let signed = s.len() > 0 && (s[0] == '-' || s[0] == '+');
    let body = if signed {
        s.drop_first()
    } else {
        s
    };
    let value = if s.len() > 0 && s[0] == '-' {
        -digits_value(body)
    } else {
        digits_value(body)
    };
    if body.len() > 0 && (forall|i: int| 0 <= i < body.len() ==> is_digit(#[trigger] body[i])) && i32::MIN
        <= value <= i32::MAX {
        Some(value as i32)
    } else {
        None
    }
}

/// Relies on `str::parse::<i32>` (std's `FromStr` for `i32`): an optional
/// `+` or `-` sign followed by decimal digits, anything else or a value out
/// of range an error.
#[verifier::external_body]
fn parse_i32(s: &str) -> (r: Option<i32>)
    ensures
        r == decimal_i32(s@),
{
    s.parse::<i32>().ok()
}

/// The pieces of `s` between commas, empty ones included.
pub open spec fn comma_fields(s: Seq<char>) -> Seq<Seq<char>>
    decreases s.len(),
{
    if s.len() == 0 {
        seq![Seq::empty()]
    } else {
        let before = comma_fields(s.drop_last());
        if s.last() == ',' {
            before.push(Seq::empty())
        } else {
            before.update(before.len() - 1, before.last().push(s.last()))
        }
    }
}

/// The non-empty pieces, in order.
pub open spec fn nonempty_fields(pieces: Seq<Seq<char>>) -> Seq<Seq<char>>
    decreases pieces.len(),
{
    if pieces.len() == 0 {
        Seq::empty()
    } else {
        let before = nonempty_fields(pieces.drop_last());
        if pieces.last().len() > 0 {
            before.push(pieces.last())
        } else {
            before
        }
    }
}

/// The role identifiers listed, comma-separated, in `s`; empty pieces are skipped.
pub open spec fn role_list(s: Seq<char>) -> Seq<Seq<char>> {
    nonempty_fields(comma_fields(s))
}

/// A comma-separated list always has at least one piece.
proof fn lemma_fields_nonempty(s: Seq<char>)
    ensures
        comma_fields(s).len() >= 1,
    decreases s.len(),
{
    if s.len() > 0 {
        lemma_fields_nonempty(s.drop_last());
    }
}

/// The texts of a vector of strings.
pub open spec fn texts(v: Seq<String>) -> Seq<Seq<char>> {
    v.map_values(|x: String| x@)
}

/// Splits a comma-separated role list, dropping empty entries.
pub fn split_roles(s: &str) -> (r: Vec<String>)
    ensures
        texts(r@) == role_list(s@),
{
    let n = s.unicode_len();
    let mut out: Vec<String> = Vec::new();
    let mut start: usize = 0;
    let mut i: usize = 0;
    proof {
        assert(s@.subrange(0, 0) =~= Seq::<char>::empty());
        assert(texts(out@) =~= Seq::<Seq<char>>::empty());
    }
    while i < n
        invariant
            n == s@.len(),
            start <= i <= n,
            comma_fields(s@.subrange(0, i as int)).len() >= 1,
            texts(out@) == nonempty_fields(comma_fields(s@.subrange(0, i as int)).drop_last()),
            comma_fields(s@.subrange(0, i as int)).last() == s@.subrange(start as int, i as int),
        decreases n - i,
    {
        let c = s.get_char(i);
        let ghost prefix = s@.subrange(0, i as int);
        let ghost fields = comma_fields(prefix);
        proof {
            assert(s@.subrange(0, i + 1) =~= prefix.push(c));
            assert(s@.subrange(0, i + 1).drop_last() =~= prefix);
            lemma_fields_nonempty(s@.subrange(0, i + 1));
        }
        if c == ',' {
            if start < i {
                let piece = s.substring_char(start, i).to_string();
                let ghost before = out@;
                out.push(piece);
                proof {
                    assert(texts(out@) =~= texts(before).push(piece@));
                }
            }
            proof {
                assert(comma_fields(s@.subrange(0, i + 1)).drop_last() =~= fields);
                assert(fields.drop_last().push(fields.last()) =~= fields);
            }
            start = i + 1;
            proof {
                assert(s@.subrange(start as int, i + 1) =~= Seq::<char>::empty());
            }
        } else {
            proof {
                let next = comma_fields(s@.subrange(0, i + 1));
                assert(next.drop_last() =~= fields.drop_last());
                assert(s@.subrange(start as int, i + 1) =~= s@.subrange(start as int, i as int).push(c));
            }
        }
        i += 1;
    }
    proof {
        assert(s@.subrange(0, n as int) =~= s@);
    }
    let ghost fields = comma_fields(s@);
    proof {
        assert(fields.drop_last().push(fields.last()) =~= fields);
    }
    if start < n {
        let piece = s.substring_char(start, n).to_string();
        let ghost before = out@;
        out.push(piece);
        proof {
            assert(texts(out@) =~= texts(before).push(piece@));
        }
    }
    out
}

/// Some role names a platform administrator: `platform:admin` or `super:admin`.
pub open spec fn has_admin_role(roles: Seq<Seq<char>>) -> bool {
    exists|i: int| 0 <= i < roles.len() && (roles[i] == "platform:admin"@ || roles[i] == "super:admin"@)
}

/// Whether any of `roles` is a platform administrator role.
pub fn is_platform_admin(roles: &Vec<String>) -> (r: bool)
    ensures
        r == has_admin_role(texts(roles@)),
{
    let mut i: usize = 0;
    while i < roles.len()
        invariant
            i <= roles@.len(),
            forall|j: int|
                0 <= j < i ==> !(roles@[j]@ == "platform:admin"@ || roles@[j]@ == "super:admin"@),
        decreases roles.len() - i,
    {
        let r = roles[i].as_str();
        if same_text(r, "platform:admin") || same_text(r, "super:admin") {
            assert(texts(roles@)[i as int] == roles@[i as int]@);
            return true;
        }
        i += 1;
    }
    assert forall|j: int| 0 <= j < roles@.len() implies !(texts(roles@)[j] == "platform:admin"@ || texts(
        roles@,
    )[j] == "super:admin"@) by {
        assert(texts(roles@)[j] == roles@[j]@);
    }
    false
}

/// The tenant written in the tenant metadata, or 0 when absent or not a number.
pub open spec fn tenant_of(tenant: Option<&str>) -> i32 {
    match tenant {
        Some(t) => match decimal_i32(t@) {
            Some(v) => v,
            None => 0,
        },
        None => 0,
    }
}

/// The roles listed in the roles metadata, none when absent.
pub open spec fn roles_of(roles: Option<&str>) -> Seq<Seq<char>> {
    match roles {
        Some(s) => role_list(s@),
        None => Seq::empty(),
    }
}

/// The text of an optional metadata value, empty when absent.
pub open spec fn text_or_empty(v: Option<&str>) -> Seq<char> {
    match v {
        Some(s) => s@,
        None => Seq::empty(),
    }
}

/// Builds the caller's context from the tenant, user, user-name and roles
/// metadata values.
///
/// Tenant 0 (absent or unreadable) is refused unless a role names a platform
/// administrator; then an empty or absent user is refused.
pub fn request_context(
    tenant: Option<&str>,
    user: Option<&str>,
    username: Option<&str>,
    roles: Option<&str>,
) -> (r: Result<RequestContext, ContextError>)
    ensures
        r == Err::<RequestContext, ContextError>(ContextError::InvalidTenant) <==> (tenant_of(tenant) == 0
            && !has_admin_role(roles_of(roles))),
        r == Err::<RequestContext, ContextError>(ContextError::MissingUser) <==> (!(tenant_of(tenant) == 0
            && !has_admin_role(roles_of(roles))) && text_or_empty(user).len() == 0),
        r matches Ok(c) ==> {
            &&& c.tenant_id == tenant_of(tenant)
            &&& c.user_id@ == text_or_empty(user)
            &&& c.username@ == text_or_empty(username)
            &&& texts(c.role_ids@) == roles_of(roles)
        },
{
    let tenant_id: i32 = match tenant {
        Some(t) => match parse_i32(t) {
            Some(v) => v,
            None => 0,
        },
        None => 0,
    };
    let role_ids: Vec<String> = match roles {
        Some(s) => split_roles(s),
        None => Vec::new(),
    };
    proof {
        if roles is None {
            assert(texts(role_ids@) =~= Seq::<Seq<char>>::empty());
        }
    }
    if tenant_id == 0 && !is_platform_admin(&role_ids) {
        return Err(ContextError::InvalidTenant);
    }
    let user_id: String = match user {
        Some(u) => u.to_string(),
        None => String::new(),
    };
    if user_id.unicode_len() == 0 {
        return Err(ContextError::MissingUser);
    }
    let username: String = match username {
        Some(n) => n.to_string(),
        None => String::new(),
    };
    Ok(RequestContext { tenant_id, user_id, username, role_ids })
}

} // verus!

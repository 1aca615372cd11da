use vstd::prelude::*;
use vstd::string::*;

use rand::Rng;

use crate::errors::AccountError;
use crate::platform::{spec_platform_from, spec_platform_str, PlatformType};
use crate::strutil::str_eq;

verus! {

/// One stored streaming-platform account: the credential material parsed
/// out of a raw cookie string.
pub struct AccountRow {
    pub platform: String,
    pub uid: u64,
    pub name: String,
    pub avatar: String,
    pub csrf: String,
    pub cookies: String,
    pub created_at: String,
}

/// Mathematical model of an [`AccountRow`].
pub ghost struct AccountRowV {
    pub platform: Seq<char>,
    pub uid: nat,
    pub name: Seq<char>,
    pub avatar: Seq<char>,
    pub csrf: Seq<char>,
    pub cookies: Seq<char>,
    pub created_at: Seq<char>,
}

impl View for AccountRow {
    type V = AccountRowV;

    open spec fn view(&self) -> AccountRowV {
        AccountRowV {
            platform: self.platform@,
            uid: self.uid as nat,
            name: self.name@,
            avatar: self.avatar@,
            csrf: self.csrf@,
            cookies: self.cookies@,
            created_at: self.created_at@,
        }
    }
}

/// Cookie-string whitespace: the blanks that surround `;`-separated
/// cookie pairs.
pub open spec fn is_blank(c: char) -> bool {
    c == ' ' || c == '\t'
}

/// The sequence with its leading blanks removed.
pub open spec fn trim_start(s: Seq<char>) -> Seq<char>
    decreases s.len(),
{
    if s.len() > 0 && is_blank(s[0]) {
        trim_start(s.subrange(1, s.len() as int))
    } else {
        s
    }
}

/// The sequence with its trailing blanks removed.
pub open spec fn trim_end(s: Seq<char>) -> Seq<char>
    decreases s.len(),
{
    if s.len() > 0 && is_blank(s[s.len() - 1]) {
        trim_end(s.subrange(0, s.len() - 1))
    } else {
        s
    }
}

/// The sequence with leading and trailing blanks removed.
pub open spec fn spec_trim(s: Seq<char>) -> Seq<char> {
    trim_end(trim_start(s))
}

/// The index of the first `;`, or the length when there is none.
pub open spec fn first_semi(s: Seq<char>) -> nat
    decreases s.len(),
{
    if s.len() == 0 {
        0
    } else if s[0] == ';' {
        0
    } else {
        1 + first_semi(s.subrange(1, s.len() as int))
    }
}

/// The value of the first `bili_jct` cookie in a `;`-separated cookie
/// string, if one is present: the remainder of the first trimmed pair
/// that starts with `bili_jct=`.
pub open spec fn csrf_of(s: Seq<char>) -> Option<Seq<char>>
    decreases s.len(),
{
    let k = first_semi(s);
    let seg = spec_trim(s.subrange(0, (if k <= s.len() {
        k
    } else {
        s.len()
    }) as int));
    if seg.len() >= 9 && seg.subrange(0, 9) == "bili_jct="@ {
        Some(seg.subrange(9, seg.len() as int))
    } else if k >= s.len() {
        None
    } else {
        csrf_of(s.subrange(k + 1 as int, s.len() as int))
    }
}

/// What follows the first occurrence of `DedeUserID=`, if any.
pub open spec fn after_uid_key(s: Seq<char>) -> Option<Seq<char>>
    decreases s.len(),
{
    if s.len() < 11 {
        None
    } else if s.subrange(0, 11) == "DedeUserID="@ {
        Some(s.subrange(11, s.len() as int))
    } else {
        after_uid_key(s.subrange(1, s.len() as int))
    }
}

/// The numeric value of a decimal digit; 10 for any other character.
pub open spec fn digit_val(c: char) -> nat {
    if c == '0' {
        0
    } else if c == '1' {
        1
    } else if c == '2' {
        2
    } else if c == '3' {
        3
    } else if c == '4' {
        4
    } else if c == '5' {
        5
    } else if c == '6' {
        6
    } else if c == '7' {
        7
    } else if c == '8' {
        8
    } else if c == '9' {
        9
    } else {
        10
    }
}

/// Every character is a decimal digit.
pub open spec fn all_digits(s: Seq<char>) -> bool {
    forall|i: int| #![trigger s[i]] 0 <= i < s.len() ==> digit_val(s[i]) < 10
}

/// The number denoted by a digit sequence, most significant first.
pub open spec fn dec_value(s: Seq<char>) -> nat
    decreases s.len(),
{
    if s.len() == 0 {
        0
    } else {
        dec_value(s.subrange(0, s.len() - 1)) * 10 + digit_val(s[s.len() - 1])
    }
}

/// The parse of a digit string: defined exactly for non-empty all-digit
/// strings whose value fits the id type.
pub open spec fn parse_u64_of(s: Seq<char>) -> Option<nat> {
    if s.len() > 0 && all_digits(s) && dec_value(s) <= u64::MAX {
        Some(dec_value(s))
    } else {
        None
    }
}

/// The numeric user id embedded in the cookie string: the digits between
/// the first `DedeUserID=` and the next `;`.
pub open spec fn uid_of(s: Seq<char>) -> Option<nat> {
    match after_uid_key(s) {
        None => None,
        Some(t) => parse_u64_of(
            t.subrange(0, (if first_semi(t) <= t.len() {
                first_semi(t)
            } else {
                t.len()
            }) as int),
        ),
    }
}

/// The account produced from a platform name and a raw cookie string.
///
/// An unsupported platform name is refused. The Douyin platform carries
/// no csrf token in its cookies; every other platform must present a
/// `bili_jct` cookie. Only BiliBili cookies carry the numeric user id;
/// for the rest the caller supplies a generated one.
pub open spec fn spec_account(
    platform_name: Seq<char>,
    cookies: Seq<char>,
    generated_uid: nat,
    created_at: Seq<char>,
) -> Result<AccountRowV, AccountError> {
    match spec_platform_from(platform_name) {
        None => Err(AccountError::UnknownPlatform),
        Some(p) => {
            let csrf = if p == PlatformType::Douyin {
                Some(Seq::<char>::empty())
            } else {
                csrf_of(cookies)
            };
            match csrf {
                None => Err(AccountError::InvalidCookies),
                Some(c) => {
                    let uid = if p == PlatformType::BiliBili {
                        uid_of(cookies)
                    } else {
                        Some(generated_uid)
                    };
                    match uid {
                        None => Err(AccountError::InvalidCookies),
                        Some(u) => Ok(
                            AccountRowV {
                                platform: spec_platform_str(p),
                                uid: u,
                                name: Seq::<char>::empty(),
                                avatar: Seq::<char>::empty(),
                                csrf: c,
                                cookies: cookies,
                                created_at: created_at,
                            },
                        ),
                    }
                },
            }
        },
    }
}

/// Removes leading blanks.
fn trim_start_exec(s: &str) -> (r: &str)
    ensures
        r@ == trim_start(s@),
    decreases s@.len(),
{
    let n = s.unicode_len();
    if n > 0 {
        let c = s.get_char(0);
        if c == ' ' || c == '\t' {
            let t = s.substring_char(1, n);
            return trim_start_exec(t);
        }
    }
    s
}

/// Removes trailing blanks.
fn trim_end_exec(s: &str) -> (r: &str)
    ensures
        r@ == trim_end(s@),
    decreases s@.len(),
{
    let n = s.unicode_len();
    if n > 0 {
        let c = s.get_char(n - 1);
        if c == ' ' || c == '\t' {
            let t = s.substring_char(0, n - 1);
            return trim_end_exec(t);
        }
    }
    s
}

/// The index of the first `;`, or the length when there is none.
fn first_semi_exec(s: &str) -> (k: usize)
    ensures
        k as nat == first_semi(s@),
        k <= s@.len(),
    decreases s@.len(),
{
    let n = s.unicode_len();
    if n == 0 {
        return 0;
    }
    if s.get_char(0) == ';' {
        return 0;
    }
    let k = first_semi_exec(s.substring_char(1, n));
    1 + k
}

/// Extracts the `bili_jct` csrf token from a raw cookie string.
pub fn cookie_csrf(cookies: &str) -> (r: Option<String>)
    ensures
        match r {
            Some(v) => csrf_of(cookies@) == Some(v@),
            None => csrf_of(cookies@) is None,
        },
    decreases cookies@.len(),
{
    proof {
        reveal_strlit("bili_jct=");
        assert("bili_jct="@.len() == 9);
    }
    let n = cookies.unicode_len();
    let k = first_semi_exec(cookies);
    let seg_raw = cookies.substring_char(0, k);
    let seg = trim_end_exec(trim_start_exec(seg_raw));
    let m = seg.unicode_len();
    if m >= 9 && str_eq(seg.substring_char(0, 9), "bili_jct=") {
        proof {
            assert(seg@.subrange(0, 9) == "bili_jct="@);
        }
        let v = seg.substring_char(9, m).to_owned();
        Some(v)
    } else if k >= n {
        None
    } else {
        cookie_csrf(cookies.substring_char(k + 1, n))
    }
}

/// What follows the first occurrence of `DedeUserID=`, if any.
fn after_uid_key_exec(s: &str) -> (r: Option<&str>)
    ensures
        match r {
            Some(t) => after_uid_key(s@) == Some(t@),
            None => after_uid_key(s@) is None,
        },
    decreases s@.len(),
{
    proof {
        reveal_strlit("DedeUserID=");
        assert("DedeUserID="@.len() == 11);
    }
    let n = s.unicode_len();
    if n < 11 {
        return None;
    }
    if str_eq(s.substring_char(0, 11), "DedeUserID=") {
        proof {
            assert(s@.subrange(0, 11) == "DedeUserID="@);
        }
        Some(s.substring_char(11, n))
    } else {
        after_uid_key_exec(s.substring_char(1, n))
    }
}

/// The numeric value of a decimal digit; 10 for any other character.
fn digit_val_exec(c: char) -> (r: u64)
    ensures
        r as nat == digit_val(c),
{
    if c == '0' {
        0
    } else if c == '1' {
        1
    } else if c == '2' {
        2
    } else if c == '3' {
        3
    } else if c == '4' {
        4
    } else if c == '5' {
        5
    } else if c == '6' {
        6
    } else if c == '7' {
        7
    } else if c == '8' {
        8
    } else if c == '9' {
        9
    } else {
        10
    }
}

/// A longer digit string never denotes a smaller number.
proof fn lemma_dec_value_prefix(s: Seq<char>, i: int)
    requires
        0 <= i <= s.len(),
    ensures
        dec_value(s) >= dec_value(s.subrange(0, i)),
    decreases s.len() - i,
{
    if i < s.len() {
        lemma_dec_value_prefix(s, i + 1);
        assert(s.subrange(0, i + 1).subrange(0, i) =~= s.subrange(0, i));
        assert(dec_value(s.subrange(0, i + 1)) == dec_value(s.subrange(0, i)) * 10 + digit_val(
            s.subrange(0, i + 1)[i],
        ));
    } else {
        assert(s.subrange(0, i) =~= s);
    }
}

/// Parses a non-empty all-digit string into a user id.
fn parse_u64_digits(d: &str) -> (r: Option<u64>)
    ensures
        match r {
            Some(v) => parse_u64_of(d@) == Some(v as nat),
            None => parse_u64_of(d@) is None,
        },
{
    let n = d.unicode_len();
    if n == 0 {
        return None;
    }
    let mut v: u64 = 0;
    let mut i: usize = 0;
    while i < n
        invariant
            i <= n,
            n == d@.len(),
            v as nat == dec_value(d@.subrange(0, i as int)),
            forall|j: int| #![trigger d@[j]] 0 <= j < i ==> digit_val(d@[j]) < 10,
        decreases n - i,
    {
        let c = d.get_char(i);
        let dv = digit_val_exec(c);
        if dv >= 10 {
            return None;
        }
        let ghost pre = d@.subrange(0, i as int);
        let ghost pre1 = d@.subrange(0, i + 1 as int);
        proof {
            assert(pre1.subrange(0, i as int) =~= pre);
            assert(dec_value(pre1) == dec_value(pre) * 10 + digit_val(d@[i as int]));
        }
        let v10 = match v.checked_mul(10) {
            Some(x) => x,
            None => {
                proof {
                    lemma_dec_value_prefix(d@, i + 1 as int);
                    assert(d@.subrange(0, d@.len() as int) =~= d@);
                }
                return None;
            },
        };
        v = match v10.checked_add(dv) {
            Some(x) => x,
            None => {
                proof {
                    lemma_dec_value_prefix(d@, i + 1 as int);
                    assert(d@.subrange(0, d@.len() as int) =~= d@);
                }
                return None;
            },
        };
        i = i + 1;
    }
    proof {
        assert(d@.subrange(0, n as int) =~= d@);
    }
    Some(v)
}

/// Extracts the numeric user id from a raw BiliBili cookie string.
pub fn cookie_uid(cookies: &str) -> (r: Option<u64>)
    ensures
        match r {
            Some(v) => uid_of(cookies@) == Some(v as nat),
            None => uid_of(cookies@) is None,
        },
{
    match after_uid_key_exec(cookies) {
        Some(t) => {
            let k = first_semi_exec(t);
            let digits = t.substring_char(0, k);
            parse_u64_digits(digits)
        },
        None => None,
    }
}

/// Builds the account row for a platform from its raw cookie string.
///
/// `generated_uid` stands in for the user id on platforms whose cookies
/// do not carry one; `created_at` is the caller's creation timestamp.
pub fn create_account(
    platform_name: &str,
    cookies: &str,
    generated_uid: u64,
    created_at: String,
) -> (r: Result<AccountRow, AccountError>)
    ensures
        match r {
            Ok(a) => spec_account(platform_name@, cookies@, generated_uid as nat, created_at@)
                == Result::<AccountRowV, AccountError>::Ok(a@),
            Err(e) => spec_account(platform_name@, cookies@, generated_uid as nat, created_at@)
                == Result::<AccountRowV, AccountError>::Err(e),
        },
{
    let platform = match PlatformType::from_str(platform_name) {
        Some(p) => p,
        None => {
            return Err(AccountError::UnknownPlatform);
        },
    };
    let csrf: String = if platform == PlatformType::Douyin {
        String::new()
    } else {
        match cookie_csrf(cookies) {
            Some(c) => c,
            None => {
                return Err(AccountError::InvalidCookies);
            },
        }
    };
    let uid: u64 = if platform == PlatformType::BiliBili {
        match cookie_uid(cookies) {
            Some(u) => u,
            None => {
                return Err(AccountError::InvalidCookies);
            },
        }
    } else {
        generated_uid
    };
    let name = String::new();
    let avatar = String::new();
    Ok(
        AccountRow {
            platform: platform.as_str().to_owned(),
            uid,
            name,
            avatar,
            csrf,
            cookies: cookies.to_owned(),
            created_at,
        },
    )
}

/// Relies on `rand::Rng::gen_range` over `rand::thread_rng`: a uniformly
/// drawn value from the inclusive range, used as a synthetic account id
/// on platforms whose cookies carry none. Nothing is assumed beyond the
/// range bounds.
#[verifier::external_body]
fn random_uid() -> (r: u64)
    ensures
        10000 <= r <= 0x7fff_ffff,
{
    rand::thread_rng().gen_range(10000..=i32::MAX) as u64
}

/// Relies on `chrono::Utc::now` and `to_rfc3339` for the creation
/// timestamp; the result depends on the clock, so nothing is assumed of
/// it.
#[verifier::external_body]
fn now_rfc3339() -> String {
    chrono::Utc::now().to_rfc3339()
}

/// Builds an account row from a platform name and a raw cookie string,
/// drawing the synthetic user id and the creation timestamp here.
///
/// Whatever id and timestamp were drawn, the row is exactly the one
/// `spec_account` produces for them, and failures do not depend on them.
pub fn new_account(platform_name: &str, cookies: &str) -> (r: Result<AccountRow, AccountError>)
    ensures
        match r {
            Ok(a) => spec_account(platform_name@, cookies@, a@.uid, a@.created_at)
                == Result::<AccountRowV, AccountError>::Ok(a@),
            Err(e) => spec_account(platform_name@, cookies@, 0, Seq::<char>::empty())
                == Result::<AccountRowV, AccountError>::Err(e),
        },
{
    let uid = random_uid();
    let created_at = now_rfc3339();
    let ghost ca = created_at@;
    let r = create_account(platform_name, cookies, uid, created_at);
    proof {
        if r is Err {
            assert(spec_account(platform_name@, cookies@, 0, Seq::<char>::empty())
                == spec_account(platform_name@, cookies@, uid as nat, ca));
        }
    }
    r
}

} // verus!

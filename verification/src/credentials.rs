//! MySQL credentials kept in the Windows Credential Manager.
//!
//! The Credential Manager itself is reached from outside the library; here is
//! what is written to it and how its answers are read.

use vstd::prelude::*;
use vstd::utf8::{decode_utf8, encode_utf8, valid_utf8};
use crate::text::{decimal, decimal_string, in_set, trim_end_by};

verus! {

/// A saved MySQL login.
pub struct MysqlCredentials {
    pub user: String,
    pub password: String,
}

/// The target name under which the login is stored.
pub fn mysql_target() -> (r: &'static str)
    ensures
        r@ == "Xamppify/MySQL"@,
{
    "Xamppify/MySQL"
}

/// The Windows error code for a credential that does not exist.
pub const ERROR_NOT_FOUND: u32 = 1168;

/// The UTF-16 code units of one character.
pub open spec fn utf16_of(c: char) -> Seq<u16> {
    let v = c as u32;
    if v < 0x10000 {
        seq![v as u16]
    } else {
        let w = v - 0x10000;
        seq![(0xd800 + w / 1024) as u16, (0xdc00 + w % 1024) as u16]
    }
}

/// The UTF-16 encoding of a string (`str::encode_utf16`).
pub open spec fn utf16_units(s: Seq<char>) -> Seq<u16>
    decreases s.len(),
{
    if s.len() == 0 {
        Seq::empty()
    } else {
        utf16_units(s.drop_last()) + utf16_of(s.last())
    }
}

/// A NUL-terminated UTF-16 string, as the wide Windows functions take it.
pub fn wide(s: &str) -> (r: Vec<u16>)
    ensures
        r@ == utf16_units(s@).push(0u16),
{
    let mut r: Vec<u16> = Vec::new();
    let ghost cs = s@;
    let mut i: usize = 0;
    let chars = crate::text::chars_of(s);
    while i < chars.len()
        invariant
            i <= chars@.len(),
            chars@ == cs,
            r@ == utf16_units(cs.take(i as int)),
        decreases chars@.len() - i,
    {
        let c = chars[i];
        let v = c as u32;
        proof {
            assert(cs.take(i + 1).drop_last() =~= cs.take(i as int));
            assert(cs.take(i + 1).last() == c);
            assert(utf16_units(cs.take(i + 1)) == utf16_units(cs.take(i as int)) + utf16_of(c));
        }
        if v < 0x10000 {
            r.push(v as u16);
            assert(r@ =~= utf16_units(cs.take(i as int)) + utf16_of(c));
        } else {
            assert(v <= 0x10ffff) by {
                vstd::utf8::char_is_scalar(c);
            }
            let w = v - 0x10000;
            r.push((0xd800 + w / 1024) as u16);
            r.push((0xdc00 + w % 1024) as u16);
            assert(r@ =~= utf16_units(cs.take(i as int)) + utf16_of(c));
        }
        i = i + 1;
    }
    assert(cs.take(chars@.len() as int) =~= cs);
    r.push(0);
    r
}

/// The bytes stored as the secret: the password in UTF-8 and a NUL.
pub fn credential_blob(password: &str) -> (r: Vec<u8>)
    ensures
        r@ == encode_utf8(password@).push(0u8),
{
    let bytes = password.as_bytes();
    let mut r: Vec<u8> = Vec::new();
    let mut i: usize = 0;
    while i < bytes.len()
        invariant
            i <= bytes@.len(),
            bytes@ == encode_utf8(password@),
            r@ == bytes@.take(i as int),
        decreases bytes@.len() - i,
    {
        r.push(bytes[i]);
        i = i + 1;
        assert(r@ =~= bytes@.take(i as int));
    }
    assert(bytes@.take(bytes@.len() as int) =~= bytes@);
    r.push(0);
    r
}

/// What `String::from_utf16_lossy` returns for these code units.
pub uninterp spec fn utf16_lossy(units: Seq<u16>) -> Seq<char>;

/// What `String::from_utf8_lossy` returns for these bytes.
pub uninterp spec fn utf8_lossy(bytes: Seq<u8>) -> Seq<char>;

/// `String::from_utf16_lossy`. Claimed: the result is named by `utf16_lossy`;
/// units that are the UTF-16 encoding of a string decode to that string.
#[verifier::external_body]
fn from_utf16_lossy(units: &[u16]) -> (r: String)
    ensures
        r@ == utf16_lossy(units@),
        forall|cs: Seq<char>| units@ == #[trigger] utf16_units(cs) ==> r@ == cs,
{
    String::from_utf16_lossy(units)
}

/// `String::from_utf8_lossy`, made owned. Claimed: the result is named by
/// `utf8_lossy`; valid UTF-8 decodes to the characters it encodes.
#[verifier::external_body]
pub(crate) fn from_utf8_lossy(bytes: &[u8]) -> (r: String)
    ensures
        r@ == utf8_lossy(bytes@),
        valid_utf8(bytes@) ==> r@ == decode_utf8(bytes@),
{
    String::from_utf8_lossy(bytes).into_owned()
}

/// How a call of the Credential Manager that writes or deletes went.
#[derive(Clone, Copy, Debug, PartialEq, Eq, Structural)]
pub enum StoreOutcome {
    /// There is no Credential Manager on this system.
    Unsupported,
    /// The call succeeded.
    Done,
    /// The call failed with this Windows error code.
    Failed(u32),
}

/// The message for a failed call.
pub open spec fn failure_text(what: Seq<char>, code: u32) -> Seq<char> {
    "Failed to "@ + what + " credentials (error "@ + decimal(code as nat) + ")"@
}

fn failure(what: &str, code: u32) -> (r: String)
    ensures
        r@ == failure_text(what@, code),
{
    let mut r = String::from_str("Failed to ");
    r.append(what);
    r.append(" credentials (error ");
    let d = decimal_string(code as u64);
    r.append(d.as_str());
    r.append(")");
    r
}

pub open spec fn unsupported_text() -> Seq<char> {
    "Windows Credential Manager is only available on Windows"@
}

/// The result of saving the login, from how the write went.
pub fn save_mysql_credentials(outcome: StoreOutcome) -> (r: Result<(), String>)
    ensures
        outcome is Done <==> r is Ok,
        outcome is Unsupported ==> (r matches Err(e) && e@ == unsupported_text()),
        outcome matches StoreOutcome::Failed(code) ==> (r matches Err(e) && e@ == failure_text(
            "save"@,
            code,
        )),
{
    match outcome {
        StoreOutcome::Unsupported => Err(
            String::from_str("Windows Credential Manager is only available on Windows"),
        ),
        StoreOutcome::Done => Ok(()),
        StoreOutcome::Failed(code) => Err(failure("save", code)),
    }
}

/// The result of deleting the login: a login that was not there is no error.
pub fn delete_mysql_credentials(outcome: StoreOutcome) -> (r: Result<(), String>)
    ensures
        r is Ok <==> (outcome is Unsupported || outcome is Done || outcome == StoreOutcome::Failed(
            ERROR_NOT_FOUND,
        )),
        outcome matches StoreOutcome::Failed(code) ==> code != ERROR_NOT_FOUND ==> (r matches Err(
            e,
        ) && e@ == failure_text("delete"@, code)),
{
    match outcome {
        StoreOutcome::Failed(code) => {
            if code != ERROR_NOT_FOUND {
                Err(failure("delete", code))
            } else {
                Ok(())
            }
        },
        _ => Ok(()),
    }
}

/// What reading the login returned.
pub enum ReadOutcome {
    /// There is no Credential Manager on this system.
    Unsupported,
    /// The read failed with this Windows error code.
    Failed(u32),
    /// The read succeeded without a credential.
    Missing,
    /// The stored user name (its code units before the NUL; none when absent)
    /// and secret (none when absent or empty).
    Found { user: Option<Vec<u16>>, secret: Option<Vec<u8>> },
}

/// The password read from a stored secret: its decoding without trailing NULs.
pub open spec fn password_of(secret: Seq<u8>) -> Seq<char> {
    trim_end_by(utf8_lossy(secret), in_set(seq!['\0']))
}

/// A password that does not end in NUL, which the stored form cannot tell
/// apart from its terminator.
pub open spec fn no_trailing_nul(p: Seq<char>) -> bool {
    p.len() == 0 || p.last() != '\0'
}

/// The UTF-8 encoding of a string with a NUL appended is its encoding and a
/// zero byte.
pub proof fn lemma_encode_push_nul(p: Seq<char>)
    ensures
        encode_utf8(p.push('\0')) == encode_utf8(p).push(0u8),
    decreases p.len(),
{
    if p.len() == 0 {
        let q = p.push('\0');
        assert(q.drop_first() =~= Seq::<char>::empty());
        assert(q[0] == '\0');
        assert(('\0' as u32) == 0u32);
        assert(0u32 & 0x7f == 0) by (bit_vector);
        assert(vstd::utf8::has_width_1_encoding(0u32));
        assert(vstd::utf8::encode_scalar(0u32) =~= seq![0u8]);
        assert(encode_utf8(q.drop_first()) =~= Seq::<u8>::empty());
        assert(encode_utf8(q) =~= seq![0u8]);
    } else {
        assert(p.push('\0').drop_first() =~= p.drop_first().push('\0'));
        lemma_encode_push_nul(p.drop_first());
        assert(encode_utf8(p.push('\0')) =~= encode_utf8(p).push(0u8));
    }
}

/// The password read back from what `credential_blob` stores for `p` is `p`.
proof fn lemma_password_round_trip(p: Seq<char>, decoded: Seq<char>)
    requires
        no_trailing_nul(p),
        decoded == p.push('\0'),
    ensures
        trim_end_by(decoded, in_set(seq!['\0'])) == p,
{
    let t = decoded;
    assert(seq!['\0'].contains('\0')) by {
        assert(seq!['\0'][0] == '\0');
    }
    if p.len() > 0 {
        if seq!['\0'].contains(p.last()) {
            let k = choose|k: int| 0 <= k < 1 && seq!['\0'][k] == p.last();
            assert(false);
        }
        assert(t[t.len() - 2] == p.last());
    }
    crate::text::lemma_trail_count_unique(t, in_set(seq!['\0']), 1);
    assert(t.subrange(0, t.len() - 1) =~= p);
}

/// The login read from the Credential Manager, from what the read returned.
pub fn get_mysql_credentials(outcome: ReadOutcome) -> (r: Result<
    Option<MysqlCredentials>,
    String,
>)
    ensures
        match outcome {
            ReadOutcome::Unsupported => r matches Ok(None),
            ReadOutcome::Missing => r matches Ok(None),
            ReadOutcome::Failed(code) => if code == ERROR_NOT_FOUND {
                r matches Ok(None)
            } else {
                r matches Err(e) && e@ == failure_text("read"@, code)
            },
            ReadOutcome::Found { user, secret } => r matches Ok(Some(c)) && c.user@ == (match user {
                Some(u) => utf16_lossy(u@),
                None => Seq::empty(),
            }) && c.password@ == (match secret {
                Some(b) => password_of(b@),
                None => Seq::empty(),
            }) && (forall|cs: Seq<char>|
                #![trigger utf16_units(cs)]
                user matches Some(u) && u@ == utf16_units(cs) ==> c.user@ == cs) && (forall|
                p: Seq<char>,
            |
                #![trigger encode_utf8(p)]
                secret matches Some(b) && b@ == encode_utf8(p).push(0u8) && no_trailing_nul(p)
                    ==> c.password@ == p),
        },
{
    match outcome {
        ReadOutcome::Unsupported => Ok(None),
        ReadOutcome::Missing => Ok(None),
        ReadOutcome::Failed(code) => {
            if code == ERROR_NOT_FOUND {
                Ok(None)
            } else {
                Err(failure("read", code))
            }
        },
        ReadOutcome::Found { user, secret } => {
            let user = match user {
                Some(u) => from_utf16_lossy(u.as_slice()),
                None => String::new(),
            };
            let password = match secret {
                Some(b) => {
                    let s = from_utf8_lossy(b.as_slice());
                    proof {
                        assert forall|p: Seq<char>|
                            #![trigger encode_utf8(p)]
                            b@ == encode_utf8(p).push(0u8) && no_trailing_nul(p) implies s@
                            == p.push('\0') by {
                            lemma_encode_push_nul(p);
                            vstd::utf8::encode_utf8_valid_utf8(p.push('\0'));
                            vstd::utf8::encode_utf8_decode_utf8(p.push('\0'));
                        }
                    }
                    let v = crate::text::chars_of(s.as_str());
                    let nul = vec!['\0'];
                    let end = crate::text::skip_set_back(&v, 0, v.len(), &nul);
                    proof {
                        assert(v@.subrange(0, v@.len() as int) =~= v@);
                        assert(nul@ =~= seq!['\0']);
                    }
                    let p = crate::text::string_of_range(&v, 0, end);
                    assert(p@ == password_of(b@));
                    proof {
                        assert forall|q: Seq<char>|
                            #![trigger encode_utf8(q)]
                            b@ == encode_utf8(q).push(0u8) && no_trailing_nul(q) implies p@
                            == q by {
                            lemma_password_round_trip(q, s@);
                        }
                    }
                    p
                },
                None => String::new(),
            };
            Ok(Some(MysqlCredentials { user, password }))
        },
    }
}

} // verus!

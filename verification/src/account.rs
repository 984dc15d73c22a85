//! Stored identities.

use vstd::prelude::*;
use vstd::utf8::{decode_utf8, encode_utf8, encode_utf8_decode_utf8, is_char_boundary};
use vstd::string::{StringExecFns, StringSliceAdditionalSpecFns};

verus! {

/// A stored identity: a static access-key/secret-key pair, its default region,
/// and whether the session starts with it.
#[derive(Debug, PartialEq)]
pub struct Account {
    pub id: i64,
    pub name: String,
    pub description: String,
    pub access_key: String,
    pub secret_key: String,
    pub is_default: bool,
    pub default_region: String,
}

/// What an [`Account`] holds, as plain values.
pub struct AccountView {
    pub id: i64,
    pub name: Seq<char>,
    pub description: Seq<char>,
    pub access_key: Seq<char>,
    pub secret_key: Seq<char>,
    pub is_default: bool,
    pub default_region: Seq<char>,
}

impl View for Account {
    type V = AccountView;

    open spec fn view(&self) -> AccountView {
        AccountView {
            id: self.id,
            name: self.name@,
            description: self.description@,
            access_key: self.access_key@,
            secret_key: self.secret_key@,
            is_default: self.is_default,
            default_region: self.default_region@,
        }
    }
}

impl Clone for Account {
    fn clone(&self) -> (copy: Self)
        ensures
            copy == *self,
    {
        Account {
            id: self.id,
            name: self.name.clone(),
            description: self.description.clone(),
            access_key: self.access_key.clone(),
            secret_key: self.secret_key.clone(),
            is_default: self.is_default,
            default_region: self.default_region.clone(),
        }
    }
}

/// The five characters that stand for the hidden middle of a secret.
pub open spec fn mask() -> Seq<char> {
    seq!['*', '*', '*', '*', '*']
}

/// Whether a secret can be shown masked: one of six bytes or more must begin a
/// character at its fourth byte and at its third byte from the end.
pub open spec fn can_be_masked(secret: Seq<char>) -> bool {
    let bytes = encode_utf8(secret);
    bytes.len() >= 6 ==> is_char_boundary(bytes, 3) && is_char_boundary(bytes, bytes.len() - 3)
}

/// A secret as it is shown: one of six bytes or more keeps its first three
/// bytes and its last three, with the mask between them; a shorter one is shown
/// whole.
pub open spec fn masked_secret(secret: Seq<char>) -> Seq<char> {
    let bytes = encode_utf8(secret);
    if bytes.len() >= 6 {
        decode_utf8(bytes.subrange(0, 3)) + mask() + decode_utf8(
            bytes.subrange(bytes.len() - 3, bytes.len() as int),
        )
    } else {
        secret
    }
}

/// A secret of six characters or more that are all one byte long keeps its
/// first three and its last three characters.
pub proof fn lemma_masked_ascii_secret(secret: Seq<char>)
    requires
        vstd::utf8::is_ascii_chars(secret),
        secret.len() >= 6,
    ensures
        can_be_masked(secret),
        masked_secret(secret) == secret.take(3) + mask() + secret.skip(secret.len() - 3),
{
    let bytes = encode_utf8(secret);
    let n = secret.len() as int;
    let head = secret.take(3);
    let tail = secret.skip(n - 3);
    vstd::utf8::is_ascii_chars_encode_utf8(secret);
    vstd::utf8::is_ascii_chars_encode_utf8(head);
    vstd::utf8::is_ascii_chars_encode_utf8(tail);
    vstd::utf8::is_ascii_chars_nat_bound(secret);
    vstd::utf8::encode_utf8_valid_utf8(secret);
    assert(bytes[3] == secret[3] as u8);
    assert(bytes[n - 3] == secret[n - 3] as u8);
    vstd::utf8::is_char_boundary_iff_not_is_continuation_byte(bytes, 3);
    vstd::utf8::is_char_boundary_iff_not_is_continuation_byte(bytes, n - 3);
    assert(encode_utf8(head) =~= bytes.subrange(0, 3)) by {
        assert forall|i: int| 0 <= i < 3 implies encode_utf8(head)[i] == bytes[i] by {
            assert(head[i] == secret[i]);
        }
    }
    assert(encode_utf8(tail) =~= bytes.subrange(n - 3, n)) by {
        assert forall|i: int| 0 <= i < 3 implies encode_utf8(tail)[i] == bytes[n - 3 + i] by {
            assert(tail[i] == secret[n - 3 + i]);
        }
    }
    encode_utf8_decode_utf8(head);
    encode_utf8_decode_utf8(tail);
}

impl Account {
    /// Whether [`Account::masked_secret_key`] may be called on this account.
    pub fn secret_key_can_be_masked(&self) -> (possible: bool)
        ensures
            possible == can_be_masked(self.secret_key@),
    {
        let secret = self.secret_key.as_str();
        let length = secret.as_bytes().len();
        length < 6 || (secret.is_char_boundary(3) && secret.is_char_boundary(length - 3))
    }

    /// The secret key as it is shown on screen.
    pub fn masked_secret_key(&self) -> (masked: String)
        requires
            can_be_masked(self.secret_key@),
        ensures
            masked@ == masked_secret(self.secret_key@),
    {
        let secret = self.secret_key.as_str();
        let length = secret.as_bytes().len();
        if length >= 6 {
            let (first, _) = secret.split_at(3);
            let (_, last) = secret.split_at(length - 3);
            let mut masked = first.to_owned();
            masked.append("*****");
            masked.append(last);
            proof {
                reveal_strlit("*****");
                encode_utf8_decode_utf8(first@);
                encode_utf8_decode_utf8(last@);
                assert("*****"@ =~= mask());
            }
            masked
        } else {
            self.secret_key.clone()
        }
    }
}

} // verus!

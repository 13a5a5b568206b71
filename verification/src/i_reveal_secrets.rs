//! Writing out key material, which nothing does by accident: the function that
//! writes a secret asks for a token that is only had by saying so twice.

use vstd::prelude::*;
use core::marker::PhantomData;

verus! {

/// Stands for the intent to reveal a secret.
pub struct IKnowWhatIamDoing;

/// The token that the writing of a secret asks for. One that is not sworn yet
/// opens nothing.
pub struct IShouldntRevealSecrets<T, const I_KNOW_WHAT_I_AM_DOING: bool> {
    _phantom: PhantomData<T>,
}

impl<T, const I_KNOW_WHAT_I_AM_DOING: bool> IShouldntRevealSecrets<T, I_KNOW_WHAT_I_AM_DOING> {
    /// Whether the token is sworn.
    pub open spec fn sworn(&self) -> bool {
        I_KNOW_WHAT_I_AM_DOING
    }
}

impl IShouldntRevealSecrets<IKnowWhatIamDoing, false> {
    /// Swears on the token.
    pub fn i_swear(self) -> (r: IShouldntRevealSecrets<IKnowWhatIamDoing, true>)
        ensures
            r.sworn(),
    {
        IShouldntRevealSecrets { _phantom: PhantomData }
    }
}

/// A token that is not sworn yet.
pub fn i_know_what_i_am_doing() -> (r: IShouldntRevealSecrets<IKnowWhatIamDoing, false>)
    ensures
        !r.sworn(),
{
    IShouldntRevealSecrets { _phantom: PhantomData }
}

/// Something secret that can be written out.
pub trait Secret {
    /// Writes the secret out.
    fn shout_the_secret(&self) -> String;
}

/// Writes `secret` out where `WRITE_THE_SECRET` says so: the text is then what
/// the secret itself writes. Else the text is empty.
pub fn shout_this_secret<const WRITE_THE_SECRET: bool, S: Secret>(
    secret: &S,
    _token: IShouldntRevealSecrets<IKnowWhatIamDoing, true>,
) -> (r: String)
    ensures
        WRITE_THE_SECRET ==> call_ensures(S::shout_the_secret, (secret,), r),
        !WRITE_THE_SECRET ==> r@ == Seq::<char>::empty(),
{
    if WRITE_THE_SECRET {
        secret.shout_the_secret()
    } else {
        String::new()
    }
}

/// The character of a hexadecimal digit.
pub open spec fn hex_digit(n: int) -> char {
    seq!['0', '1', '2', '3', '4', '5', '6', '7', '8', '9', 'a', 'b', 'c', 'd', 'e', 'f'][n]
}

/// The bytes in hexadecimal, two lower-case digits for each.
pub open spec fn hex_of(bytes: Seq<u8>) -> Seq<char>
    decreases bytes.len(),
{
    if bytes.len() == 0 {
        Seq::empty()
    } else {
        hex_of(bytes.drop_last()) + seq![
            hex_digit(bytes.last() as int / 16),
            hex_digit(bytes.last() as int % 16),
        ]
    }
}

/// The bytes in hexadecimal behind `0x`.
pub open spec fn hex_prefixed(bytes: Seq<u8>) -> Seq<char> {
    seq!['0', 'x'] + hex_of(bytes)
}

/// Encodes with `const_hex::encode_prefixed`. Claimed of it: the text is `0x`
/// and then, for each byte in turn, its two hexadecimal digits in lower case.
#[verifier::external_body]
fn encode_prefixed(bytes: &[u8]) -> (r: String)
    ensures
        r@ == hex_prefixed(bytes@),
{
    const_hex::encode_prefixed(bytes)
}

/// The bytes of a key that signs.
pub struct SigningKey {
    inner: Vec<u8>,
}

impl SigningKey {
    /// The key with the given encoding.
    pub fn new(encoded: Vec<u8>) -> (r: SigningKey)
        ensures
            r.encoded() == encoded@,
    {
        SigningKey { inner: encoded }
    }

    /// The encoding of the key.
    pub closed spec fn encoded(&self) -> Seq<u8> {
        self.inner@
    }
}

impl Secret for SigningKey {
    /// The encoding of the key in hexadecimal.
    fn shout_the_secret(&self) -> (r: String)
        ensures
            r@ == hex_prefixed(self.encoded()),
    {
        encode_prefixed(self.inner.as_slice())
    }
}

/// The bytes of a share of a key that signs.
pub struct SigningShare {
    inner: Vec<u8>,
}

impl SigningShare {
    /// The share with the given encoding.
    pub fn new(encoded: Vec<u8>) -> (r: SigningShare)
        ensures
            r.encoded() == encoded@,
    {
        SigningShare { inner: encoded }
    }

    /// The encoding of the share.
    pub closed spec fn encoded(&self) -> Seq<u8> {
        self.inner@
    }
}

impl Secret for SigningShare {
    /// The encoding of the share in hexadecimal.
    fn shout_the_secret(&self) -> (r: String)
        ensures
            r@ == hex_prefixed(self.encoded()),
    {
        encode_prefixed(self.inner.as_slice())
    }
}

/// Writes the key out where `WRITE_THE_SECRET` says so, in hexadecimal.
pub fn shout_this_key<const WRITE_THE_SECRET: bool>(
    key: &SigningKey,
    token: IShouldntRevealSecrets<IKnowWhatIamDoing, true>,
) -> (r: String)
    ensures
        r@ == if WRITE_THE_SECRET {
            hex_prefixed(key.encoded())
        } else {
            Seq::<char>::empty()
        },
{
    shout_this_secret::<WRITE_THE_SECRET, SigningKey>(key, token)
}

} // verus!

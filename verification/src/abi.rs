//! The calldata encoding: the types and values that cross the boundary between
//! the host and a native contract, and their encoding in 32-byte words.
//!
//! A list of values is encoded as one word for each value, followed by the
//! contents of the strings. The word of a string holds the place where its
//! contents begin; the contents are its length, its bytes, and zero bytes up
//! to the next full word.

use vstd::prelude::*;
use crate::primitives::{left_padded, lemma_low_bytes_len, lemma_uint_word_u64, uint_word, word_to_u64, Address, U256};

verus! {

/// The type of a parameter or of a returned value.
#[derive(Clone, Copy, Debug, PartialEq, Eq, Structural)]
pub enum AbiType {
    Address,
    Bool,
    String,
    Uint8,
    Uint64,
    Uint256,
    Bytes32,
}

impl AbiType {
    /// Whether a value of the type is encoded behind the words, with its
    /// length in front.
    pub open spec fn is_dynamic(self) -> bool {
        self is String
    }

    /// The name of the type in a canonical signature.
    pub open spec fn canonical_name(self) -> Seq<char> {
        match self {
            AbiType::Address => "address"@,
            AbiType::Bool => "bool"@,
            AbiType::String => "string"@,
            AbiType::Uint8 => "uint8"@,
            AbiType::Uint64 => "uint64"@,
            AbiType::Uint256 => "uint256"@,
            AbiType::Bytes32 => "bytes32"@,
        }
    }

    /// The name of the type in a canonical signature.
    pub fn name(&self) -> (r: &'static str)
        ensures
            r@ == self.canonical_name(),
    {
        match self {
            AbiType::Address => "address",
            AbiType::Bool => "bool",
            AbiType::String => "string",
            AbiType::Uint8 => "uint8",
            AbiType::Uint64 => "uint64",
            AbiType::Uint256 => "uint256",
            AbiType::Bytes32 => "bytes32",
        }
    }
}

/// A value that is handed to a handler or returned by one. A string is held
/// as its bytes.
#[derive(Clone, Debug, PartialEq, Eq)]
pub enum AbiValue {
    Address(Address),
    Bool(bool),
    String(Vec<u8>),
    Uint8(u8),
    Uint64(u64),
    Uint256(U256),
    Bytes32(U256),
}

/// A value as plain data.
pub enum AbiTerm {
    Address(Seq<u8>),
    Bool(bool),
    String(Seq<u8>),
    Uint8(u8),
    Uint64(u64),
    Uint256(Seq<u8>),
    Bytes32(Seq<u8>),
}

impl View for AbiValue {
    type V = AbiTerm;

    open spec fn view(&self) -> AbiTerm {
        match self {
            AbiValue::Address(a) => AbiTerm::Address(a@),
            AbiValue::Bool(b) => AbiTerm::Bool(*b),
            AbiValue::String(s) => AbiTerm::String(s@),
            AbiValue::Uint8(n) => AbiTerm::Uint8(*n),
            AbiValue::Uint64(n) => AbiTerm::Uint64(*n),
            AbiValue::Uint256(w) => AbiTerm::Uint256(w@),
            AbiValue::Bytes32(w) => AbiTerm::Bytes32(w@),
        }
    }
}

impl AbiTerm {
    /// The type of the value.
    pub open spec fn ty(self) -> AbiType {
        match self {
            AbiTerm::Address(_) => AbiType::Address,
            AbiTerm::Bool(_) => AbiType::Bool,
            AbiTerm::String(_) => AbiType::String,
            AbiTerm::Uint8(_) => AbiType::Uint8,
            AbiTerm::Uint64(_) => AbiType::Uint64,
            AbiTerm::Uint256(_) => AbiType::Uint256,
            AbiTerm::Bytes32(_) => AbiType::Bytes32,
        }
    }

    /// Whether the value has the number of bytes that its type asks for.
    pub open spec fn sized(self) -> bool {
        match self {
            AbiTerm::Address(a) => a.len() == 20,
            AbiTerm::Uint256(w) => w.len() == 32,
            AbiTerm::Bytes32(w) => w.len() == 32,
            _ => true,
        }
    }
}

impl AbiValue {
    /// The type of the value.
    pub fn ty(&self) -> (r: AbiType)
        ensures
            r == self@.ty(),
            self@.sized(),
    {
        match self {
            AbiValue::Address(_) => AbiType::Address,
            AbiValue::Bool(_) => AbiType::Bool,
            AbiValue::String(_) => AbiType::String,
            AbiValue::Uint8(_) => AbiType::Uint8,
            AbiValue::Uint64(_) => AbiType::Uint64,
            AbiValue::Uint256(_) => AbiType::Uint256,
            AbiValue::Bytes32(_) => AbiType::Bytes32,
        }
    }
}

impl AbiValue {
    /// A copy of the value.
    pub fn duplicate(&self) -> (r: AbiValue)
        ensures
            r@ == self@,
    {
        match self {
            AbiValue::Address(a) => AbiValue::Address(*a),
            AbiValue::Bool(b) => AbiValue::Bool(*b),
            AbiValue::String(s) => {
                let mut bytes: Vec<u8> = Vec::new();
                let mut i: usize = 0;
                while i < s.len()
                    invariant
                        i <= s@.len(),
                        bytes@ == s@.subrange(0, i as int),
                    decreases s@.len() - i,
                {
                    bytes.push(s[i]);
                    assert(bytes@ =~= s@.subrange(0, i + 1));
                    i = i + 1;
                }
                assert(s@.subrange(0, s@.len() as int) =~= s@);
                AbiValue::String(bytes)
            },
            AbiValue::Uint8(n) => AbiValue::Uint8(*n),
            AbiValue::Uint64(n) => AbiValue::Uint64(*n),
            AbiValue::Uint256(w) => AbiValue::Uint256(*w),
            AbiValue::Bytes32(w) => AbiValue::Bytes32(*w),
        }
    }
}

/// The values of a list as plain data.
pub open spec fn values_view(values: Seq<AbiValue>) -> Seq<AbiTerm> {
    Seq::new(values.len(), |i: int| values[i]@)
}

/// The types of the values of a list.
pub open spec fn types_of(values: Seq<AbiTerm>) -> Seq<AbiType> {
    Seq::new(values.len(), |i: int| values[i].ty())
}

/// Decides whether the values have the given types, one for one.
pub fn have_types(values: &Vec<AbiValue>, types: &Vec<AbiType>) -> (r: bool)
    ensures
        r == (types_of(values_view(values@)) == types@),
{
    if values.len() != types.len() {
        return false;
    }
    let mut i: usize = 0;
    while i < values.len()
        invariant
            i <= values@.len(),
            values@.len() == types@.len(),
            forall|k: int| 0 <= k < i ==> values@[k]@.ty() == types@[k],
        decreases values@.len() - i,
    {
        if values[i].ty() != types[i] {
            assert(types_of(values_view(values@))[i as int] != types@[i as int]);
            return false;
        }
        i = i + 1;
    }
    assert(types_of(values_view(values@)) =~= types@);
    true
}

/// `n` zero bytes.
pub open spec fn zeros(n: nat) -> Seq<u8> {
    Seq::new(n, |i: int| 0u8)
}

/// The number of zero bytes behind `len` bytes, up to the next full word.
pub open spec fn padding_len(len: nat) -> nat {
    ((32 - len % 32) % 32) as nat
}

/// The word of a value that is not a string.
pub open spec fn static_word(v: AbiTerm) -> Seq<u8> {
    match v {
        AbiTerm::Address(a) => left_padded(a),
        AbiTerm::Bool(b) => uint_word(
            if b {
                1
            } else {
                0
            },
        ),
        AbiTerm::Uint8(n) => uint_word(n as nat),
        AbiTerm::Uint64(n) => uint_word(n as nat),
        AbiTerm::Uint256(w) => w,
        AbiTerm::Bytes32(w) => w,
        AbiTerm::String(_) => zeros(32),
    }
}

/// What a value adds behind the words: the contents of a string, nothing else.
pub open spec fn tail_of(v: AbiTerm) -> Seq<u8> {
    match v {
        AbiTerm::String(s) => uint_word(s.len()) + s + zeros(padding_len(s.len())),
        _ => Seq::empty(),
    }
}

/// What the first `n` values add behind the words.
pub open spec fn tails(values: Seq<AbiTerm>, n: nat) -> Seq<u8>
    decreases n,
{
    if n == 0 {
        Seq::empty()
    } else {
        tails(values, (n - 1) as nat) + tail_of(values[n - 1])
    }
}

/// The word of the value at `i`: the value itself, or for a string the place
/// where its contents begin.
pub open spec fn head_of(values: Seq<AbiTerm>, i: int) -> Seq<u8> {
    match values[i] {
        AbiTerm::String(_) => uint_word(32 * values.len() + tails(values, i as nat).len()),
        v => static_word(v),
    }
}

/// The words of the first `n` values.
pub open spec fn heads(values: Seq<AbiTerm>, n: nat) -> Seq<u8>
    decreases n,
{
    if n == 0 {
        Seq::empty()
    } else {
        heads(values, (n - 1) as nat) + head_of(values, n - 1)
    }
}

/// The encoding of a list of values.
pub open spec fn encoding(values: Seq<AbiTerm>) -> Seq<u8> {
    heads(values, values.len()) + tails(values, values.len())
}

/// Appends the bytes of `word` to `out`.
fn push_word(out: &mut Vec<u8>, word: &U256)
    ensures
        final(out)@ == old(out)@ + word@,
{
    let mut i: usize = 0;
    while i < 32
        invariant
            i <= 32,
            out@ == old(out)@ + word@.subrange(0, i as int),
        decreases 32 - i,
    {
        out.push(word.bytes[i]);
        assert(out@ =~= old(out)@ + word@.subrange(0, i + 1));
        i = i + 1;
    }
    assert(word@.subrange(0, 32) =~= word@);
}

/// Appends `bytes` to `out`.
fn push_bytes(out: &mut Vec<u8>, bytes: &[u8])
    ensures
        final(out)@ == old(out)@ + bytes@,
{
    let mut i: usize = 0;
    while i < bytes.len()
        invariant
            i <= bytes@.len(),
            out@ == old(out)@ + bytes@.subrange(0, i as int),
        decreases bytes@.len() - i,
    {
        out.push(bytes[i]);
        assert(out@ =~= old(out)@ + bytes@.subrange(0, i + 1));
        i = i + 1;
    }
    assert(bytes@.subrange(0, bytes@.len() as int) =~= bytes@);
}

/// Appends `n` zero bytes to `out`.
fn push_zeros(out: &mut Vec<u8>, n: usize)
    ensures
        final(out)@ == old(out)@ + zeros(n as nat),
{
    let mut i: usize = 0;
    while i < n
        invariant
            i <= n,
            out@ == old(out)@ + zeros(i as nat),
        decreases n - i,
    {
        out.push(0u8);
        assert(out@ =~= old(out)@ + zeros((i + 1) as nat));
        i = i + 1;
    }
}

/// The word of a value that is not a string; for a string, the zero word.
pub fn word_of(v: &AbiValue) -> (r: U256)
    ensures
        r@ == static_word(v@),
{
    match v {
        AbiValue::Address(a) => a.to_word(),
        AbiValue::Bool(b) => U256::from_uint(
            if *b {
                1
            } else {
                0
            },
        ),
        AbiValue::Uint8(n) => U256::from_uint(*n as u128),
        AbiValue::Uint64(n) => U256::from_uint(*n as u128),
        AbiValue::Uint256(w) => *w,
        AbiValue::Bytes32(w) => *w,
        AbiValue::String(_) => {
            let r = U256::zero();
            assert(r@ =~= zeros(32));
            r
        },
    }
}

/// Encodes a list of values.
pub fn encode(values: &Vec<AbiValue>) -> (r: Vec<u8>)
    ensures
        r@ == encoding(values_view(values@)),
{
    let ghost vals = values_view(values@);
    let n = values.len();
    let mut head: Vec<u8> = Vec::new();
    let mut tail: Vec<u8> = Vec::new();
    let mut i: usize = 0;
    while i < n
        invariant
            i <= n,
            n == values@.len(),
            vals == values_view(values@),
            head@ == heads(vals, i as nat),
            tail@ == tails(vals, i as nat),
        decreases n - i,
    {
        match &values[i] {
            AbiValue::String(s) => {
                let offset: u128 = 32 * (n as u128) + tail.len() as u128;
                let word = U256::from_uint(offset);
                push_word(&mut head, &word);
                let len_word = U256::from_uint(s.len() as u128);
                push_word(&mut tail, &len_word);
                push_bytes(&mut tail, s.as_slice());
                let pad: usize = (32 - s.len() % 32) % 32;
                push_zeros(&mut tail, pad);
                proof {
                    assert(vals[i as int] == AbiTerm::String(s@));
                    assert(tail@ =~= tails(vals, i as nat) + tail_of(vals[i as int]));
                }
            },
            v => {
                let word = word_of(v);
                push_word(&mut head, &word);
                proof {
                    assert(vals[i as int] == v@);
                    assert(tail@ =~= tails(vals, i as nat) + tail_of(vals[i as int]));
                }
            },
        }
        i = i + 1;
    }
    push_bytes(&mut head, tail.as_slice());
    head
}

/// The value of type `ty` that the word `w` stands for, if it stands for one:
/// an address has twelve zero bytes in front, a small number has nothing above
/// its own range, a truth value is zero or one.
pub open spec fn decode_static(ty: AbiType, w: Seq<u8>) -> Option<AbiTerm> {
    match ty {
        AbiType::Address => if forall|j: int| 0 <= j < 12 ==> w[j] == 0u8 {
            Some(AbiTerm::Address(w.subrange(12, 32)))
        } else {
            None
        },
        AbiType::Bool => match word_to_u64(w) {
            Some(n) => if n == 0 {
                Some(AbiTerm::Bool(false))
            } else if n == 1 {
                Some(AbiTerm::Bool(true))
            } else {
                None
            },
            None => None,
        },
        AbiType::Uint8 => match word_to_u64(w) {
            Some(n) => if n <= 255 {
                Some(AbiTerm::Uint8(n as u8))
            } else {
                None
            },
            None => None,
        },
        AbiType::Uint64 => match word_to_u64(w) {
            Some(n) => Some(AbiTerm::Uint64(n)),
            None => None,
        },
        AbiType::Uint256 => Some(AbiTerm::Uint256(w)),
        AbiType::Bytes32 => Some(AbiTerm::Bytes32(w)),
        AbiType::String => None,
    }
}

/// The string whose place in `data` the word `head` holds, if there is one: the
/// place and the length are below `2^64`, and length and bytes lie inside
/// `data`.
pub open spec fn decode_string(data: Seq<u8>, head: Seq<u8>) -> Option<AbiTerm> {
    match word_to_u64(head) {
        Some(at) => if at + 32 <= data.len() {
            match word_to_u64(data.subrange(at as int, at + 32)) {
                Some(len) => if at + 32 + len <= data.len() {
                    Some(AbiTerm::String(data.subrange(at + 32, at + 32 + len)))
                } else {
                    None
                },
                None => None,
            }
        } else {
            None
        },
        None => None,
    }
}

/// The value at `i` of a list of the given types that `data` encodes, if it
/// encodes one.
pub open spec fn decode_at(types: Seq<AbiType>, data: Seq<u8>, i: int) -> Option<AbiTerm> {
    let head = data.subrange(32 * i, 32 * i + 32);
    if types[i] is String {
        decode_string(data, head)
    } else {
        decode_static(types[i], head)
    }
}

/// Whether `data` encodes a list of values of the given types: it holds a word
/// for each, and each word stands for a value. Bytes behind are not looked at.
pub open spec fn decodable(types: Seq<AbiType>, data: Seq<u8>) -> bool {
    data.len() >= 32 * types.len() && forall|i: int|
        0 <= i < types.len() ==> (#[trigger] decode_at(types, data, i)) is Some
}

/// The list of values of the given types that `data` encodes, if it encodes one.
pub open spec fn decoding(types: Seq<AbiType>, data: Seq<u8>) -> Option<Seq<AbiTerm>> {
    if decodable(types, data) {
        Some(Seq::new(types.len(), |i: int| decode_at(types, data, i)->0))
    } else {
        None
    }
}

/// Reads the word that begins at `at`.
pub fn read_word(data: &[u8], at: usize) -> (r: U256)
    requires
        at + 32 <= data@.len(),
    ensures
        r@ == data@.subrange(at as int, at + 32),
{
    let mut bytes = crate::primitives::zero_bytes32();
    let total = data.len();
    let mut i: usize = 0;
    while i < 32
        invariant
            i <= 32,
            total == data@.len(),
            at + 32 <= total,
            forall|j: int| 0 <= j < i ==> bytes@[j] == data@[at + j],
        decreases 32 - i,
    {
        bytes[i] = data[at + i];
        i = i + 1;
    }
    let r = U256 { bytes };
    assert(r@ =~= data@.subrange(at as int, at + 32));
    r
}

/// Decodes the word of a value that is not a string.
pub fn decode_word(ty: AbiType, w: &U256) -> (r: Option<AbiValue>)
    ensures
        match r {
            Some(v) => decode_static(ty, w@) == Some(v@),
            None => decode_static(ty, w@) is None,
        },
{
    match ty {
        AbiType::Address => {
            let mut i: usize = 0;
            while i < 12
                invariant
                    i <= 12,
                    ty is Address,
                    forall|j: int| 0 <= j < i ==> w@[j] == 0u8,
                decreases 12 - i,
            {
                if w.bytes[i] != 0 {
                    assert(w@[i as int] != 0u8);
                    return None;
                }
                i = i + 1;
            }
            Some(AbiValue::Address(w.to_address()))
        },
        AbiType::Bool => match w.to_u64() {
            Some(n) => if n == 0 {
                Some(AbiValue::Bool(false))
            } else if n == 1 {
                Some(AbiValue::Bool(true))
            } else {
                None
            },
            None => None,
        },
        AbiType::Uint8 => match w.to_u64() {
            Some(n) => if n <= 255 {
                Some(AbiValue::Uint8(n as u8))
            } else {
                None
            },
            None => None,
        },
        AbiType::Uint64 => match w.to_u64() {
            Some(n) => Some(AbiValue::Uint64(n)),
            None => None,
        },
        AbiType::Uint256 => Some(AbiValue::Uint256(*w)),
        AbiType::Bytes32 => Some(AbiValue::Bytes32(*w)),
        AbiType::String => None,
    }
}

/// Decodes the string whose place in `data` the word `head` holds.
pub fn decode_string_at(data: &[u8], head: &U256) -> (r: Option<AbiValue>)
    ensures
        match r {
            Some(v) => decode_string(data@, head@) == Some(v@),
            None => decode_string(data@, head@) is None,
        },
{
    let at = match head.to_u64() {
        Some(at) => at,
        None => {
            return None;
        },
    };
    if data.len() < 32 || at > (data.len() - 32) as u64 {
        return None;
    }
    let at: usize = at as usize;
    let len = match read_word(data, at).to_u64() {
        Some(len) => len,
        None => {
            return None;
        },
    };
    if len > (data.len() - 32 - at) as u64 {
        return None;
    }
    let len: usize = len as usize;
    let total = data.len();
    let mut bytes: Vec<u8> = Vec::new();
    let mut i: usize = 0;
    while i < len
        invariant
            i <= len,
            total == data@.len(),
            at + 32 + len <= total,
            bytes@ == data@.subrange(at + 32, at + 32 + i),
        decreases len - i,
    {
        bytes.push(data[at + 32 + i]);
        assert(bytes@ =~= data@.subrange(at + 32, at + 32 + i + 1));
        i = i + 1;
    }
    Some(AbiValue::String(bytes))
}

/// Decodes a list of values of the given types.
pub fn decode(types: &Vec<AbiType>, data: &[u8]) -> (r: Option<Vec<AbiValue>>)
    ensures
        match r {
            Some(values) => decoding(types@, data@) == Some(values_view(values@)),
            None => decoding(types@, data@) is None,
        },
{
    let n = types.len();
    let total = data.len();
    if total / 32 < n {
        return None;
    }
    let mut out: Vec<AbiValue> = Vec::new();
    let mut i: usize = 0;
    while i < n
        invariant
            i <= n,
            n == types@.len(),
            total == data@.len(),
            total >= 32 * n,
            out@.len() == i,
            forall|k: int|
                0 <= k < i ==> #[trigger] decode_at(types@, data@, k) == Some(out@[k]@),
        decreases n - i,
    {
        let head = read_word(data, 32 * i);
        let value = match types[i] {
            AbiType::String => decode_string_at(data, &head),
            ty => decode_word(ty, &head),
        };
        match value {
            Some(v) => {
                out.push(v);
            },
            None => {
                assert(decode_at(types@, data@, i as int) is None);
                return None;
            },
        }
        i = i + 1;
    }
    proof {
        assert(decodable(types@, data@));
        assert(decoding(types@, data@)->0 =~= values_view(out@));
    }
    Some(out)
}

/// Whether each value of the list has the number of bytes that its type asks
/// for.
pub open spec fn all_sized(values: Seq<AbiTerm>) -> bool {
    forall|i: int| 0 <= i < values.len() ==> (#[trigger] values[i]).sized()
}

/// The word of a value that is not a string decodes to the value.
pub proof fn lemma_static_word_round_trip(v: AbiTerm)
    requires
        !v.ty().is_dynamic(),
        v.sized(),
    ensures
        static_word(v).len() == 32,
        decode_static(v.ty(), static_word(v)) == Some(v),
{
    match v {
        AbiTerm::Address(a) => {
            assert(left_padded(a).subrange(12, 32) =~= a);
        },
        AbiTerm::Bool(b) => {
            lemma_uint_word_u64(
                if b {
                    1
                } else {
                    0
                },
            );
        },
        AbiTerm::Uint8(n) => {
            lemma_uint_word_u64(n as u64);
        },
        AbiTerm::Uint64(n) => {
            lemma_uint_word_u64(n);
        },
        _ => {},
    }
}

/// The words of the first `n` values are `n` words, and the word at each place
/// is the word of the value at that place.
pub proof fn lemma_heads(values: Seq<AbiTerm>, n: nat)
    requires
        all_sized(values),
        n <= values.len(),
    ensures
        heads(values, n).len() == 32 * n,
        forall|i: int|
            0 <= i < n ==> #[trigger] heads(values, n).subrange(32 * i, 32 * i + 32) == head_of(
                values,
                i,
            ),
    decreases n,
{
    if n > 0 {
        let m = (n - 1) as nat;
        lemma_heads(values, m);
        let last = values[n - 1];
        if last.ty().is_dynamic() {
            lemma_low_bytes_len(32 * values.len() + tails(values, m).len(), 16);
        } else {
            lemma_static_word_round_trip(last);
        }
        assert(head_of(values, n - 1).len() == 32);
        assert forall|i: int| 0 <= i < n implies #[trigger] heads(values, n).subrange(
            32 * i,
            32 * i + 32,
        ) == head_of(values, i) by {
            if i < n - 1 {
                assert(heads(values, n).subrange(32 * i, 32 * i + 32) =~= heads(
                    values,
                    m,
                ).subrange(32 * i, 32 * i + 32));
            } else {
                assert(heads(values, n).subrange(32 * i, 32 * i + 32) =~= head_of(
                    values,
                    n - 1,
                ));
            }
        }
    }
}

/// What the first `k` values add behind the words is the beginning of what the
/// first `n` values add, for `k` up to `n`.
pub proof fn lemma_tails_prefix(values: Seq<AbiTerm>, k: nat, n: nat)
    requires
        k <= n,
    ensures
        tails(values, k).len() <= tails(values, n).len(),
        tails(values, n).subrange(0, tails(values, k).len() as int) == tails(values, k),
    decreases n,
{
    if k == n {
        assert(tails(values, n).subrange(0, tails(values, n).len() as int) =~= tails(values, n));
    } else {
        lemma_tails_prefix(values, k, (n - 1) as nat);
        assert(tails(values, n).subrange(0, tails(values, k).len() as int) =~= tails(
            values,
            (n - 1) as nat,
        ).subrange(0, tails(values, k).len() as int));
    }
}

/// The string at place `i` of a list decodes, from the encoding of the list,
/// to itself.
proof fn lemma_string_round_trip(values: Seq<AbiTerm>, i: int)
    requires
        all_sized(values),
        0 <= i < values.len(),
        values[i] is String,
        encoding(values).len() <= u64::MAX,
    ensures
        decode_at(types_of(values), encoding(values), i) == Some(values[i]),
{
    let n = values.len();
    let data = encoding(values);
    let s = values[i]->String_0;
    let before = tails(values, i as nat);
    let own = tail_of(values[i]);
    let bl = before.len() as int;
    let ol = own.len() as int;
    let sl = s.len() as int;
    let at: int = 32 * n + bl;
    lemma_heads(values, n);
    lemma_tails_prefix(values, (i + 1) as nat, n);
    lemma_low_bytes_len(s.len(), 16);
    assert(tails(values, (i + 1) as nat) == before + own);
    assert(ol == 32 + sl + padding_len(s.len()));
    assert(at + ol <= data.len());
    assert(data.subrange(32 * i, 32 * i + 32) =~= heads(values, n).subrange(32 * i, 32 * i + 32));
    assert(data.subrange(32 * i, 32 * i + 32) == uint_word(at as nat));
    lemma_uint_word_u64(at as u64);
    lemma_uint_word_u64(sl as u64);
    assert(data.subrange(at, at + ol) =~= own) by {
        assert(tails(values, n).subrange(bl, bl + ol) =~= tails(values, n).subrange(
            0,
            bl + ol,
        ).subrange(bl, bl + ol));
        assert((before + own).subrange(bl, bl + ol) =~= own);
        assert(data.subrange(at, at + ol) =~= tails(values, n).subrange(bl, bl + ol));
    }
    assert(data.subrange(at, at + 32) =~= own.subrange(0, 32));
    assert(own.subrange(0, 32) =~= uint_word(s.len()));
    assert(data.subrange(at + 32, at + 32 + sl) =~= own.subrange(32, 32 + sl));
    assert(own.subrange(32, 32 + sl) =~= s);
}

/// A list of values decodes, from its encoding, to itself, as long as the
/// encoding is short enough for its lengths and places to be told in 64 bits.
pub proof fn lemma_decode_encode(values: Seq<AbiTerm>)
    requires
        all_sized(values),
        encoding(values).len() <= u64::MAX,
    ensures
        decoding(types_of(values), encoding(values)) == Some(values),
{
    let types = types_of(values);
    let data = encoding(values);
    lemma_heads(values, values.len());
    assert forall|i: int| 0 <= i < types.len() implies #[trigger] decode_at(types, data, i)
        == Some(values[i]) by {
        if values[i] is String {
            lemma_string_round_trip(values, i);
        } else {
            lemma_static_word_round_trip(values[i]);
            assert(data.subrange(32 * i, 32 * i + 32) =~= heads(values, values.len()).subrange(
                32 * i,
                32 * i + 32,
            ));
        }
    }
    assert(decoding(types, data)->0 =~= values);
}

} // verus!

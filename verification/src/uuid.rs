//! The identifier of a record: a 128 bit value.

use vstd::prelude::*;

use crate::error::RepoError;

verus! {

/// Identifies a lyric or a playlist. The 128 bits are read as one unsigned
/// number, most significant byte first.
#[derive(Clone, Copy, Debug, Hash, Eq, Ord)]
pub struct Uuid {
    pub value: u128,
}

impl PartialEq for Uuid {
    fn eq(&self, other: &Self) -> (equal: bool) {
        self.value == other.value
    }
}

impl vstd::std_specs::cmp::PartialEqSpecImpl for Uuid {
    open spec fn obeys_eq_spec() -> bool {
        true
    }

    open spec fn eq_spec(&self, other: &Self) -> bool {
        self.value == other.value
    }
}

impl PartialOrd for Uuid {
    fn partial_cmp(&self, other: &Self) -> (order: Option<std::cmp::Ordering>) {
        if self.value < other.value {
            Some(std::cmp::Ordering::Less)
        } else if self.value == other.value {
            Some(std::cmp::Ordering::Equal)
        } else {
            Some(std::cmp::Ordering::Greater)
        }
    }
}

impl vstd::std_specs::cmp::PartialOrdSpecImpl for Uuid {
    open spec fn obeys_partial_cmp_spec() -> bool {
        true
    }

    open spec fn partial_cmp_spec(&self, other: &Self) -> Option<std::cmp::Ordering> {
        if self.value < other.value {
            Some(std::cmp::Ordering::Less)
        } else if self.value == other.value {
            Some(std::cmp::Ordering::Equal)
        } else {
            Some(std::cmp::Ordering::Greater)
        }
    }
}

/// 256 to the power `n`.
pub open spec fn radix_pow(n: nat) -> nat
    decreases n,
{
    if n == 0 {
        1
    } else {
        256 * radix_pow((n - 1) as nat)
    }
}

/// The number that `bytes` spell, most significant byte first.
pub open spec fn be_value(bytes: Seq<u8>) -> nat
    decreases bytes.len(),
{
    if bytes.len() == 0 {
        0
    } else {
        256 * be_value(bytes.drop_last()) + bytes.last() as nat
    }
}

/// The `n` lowest bytes of `value`, most significant byte first.
pub open spec fn be_bytes(value: nat, n: nat) -> Seq<u8>
    decreases n,
{
    if n == 0 {
        Seq::empty()
    } else {
        be_bytes(value / 256, (n - 1) as nat).push((value % 256) as u8)
    }
}

/// `be_bytes` yields exactly `n` bytes.
pub proof fn lemma_be_bytes_len(value: nat, n: nat)
    ensures
        be_bytes(value, n).len() == n,
    decreases n,
{
    if n > 0 {
        lemma_be_bytes_len(value / 256, (n - 1) as nat);
    }
}

/// Powers of 256 grow with the exponent.
pub proof fn lemma_radix_pow_grows(i: nat, j: nat)
    requires
        i <= j,
    ensures
        1 <= radix_pow(i) <= radix_pow(j),
    decreases j,
{
    if j > 0 {
        if i < j {
            lemma_radix_pow_grows(i, (j - 1) as nat);
        } else {
            lemma_radix_pow_grows((i - 1) as nat, (j - 1) as nat);
        }
    }
}

/// Sixteen bytes hold exactly the numbers of 128 bits.
pub proof fn lemma_radix_pow_16()
    ensures
        radix_pow(16) == 0x1_0000_0000_0000_0000_0000_0000_0000_0000,
{
    reveal_with_fuel(radix_pow, 17);
}

/// What `n` bytes spell is below 256 to the power `n`.
pub proof fn lemma_be_value_bound(bytes: Seq<u8>)
    ensures
        be_value(bytes) < radix_pow(bytes.len()),
    decreases bytes.len(),
{
    if bytes.len() > 0 {
        lemma_be_value_bound(bytes.drop_last());
    }
}

/// Spelling a number in `n` bytes and reading the bytes back gives the
/// number, as long as it fits in `n` bytes.
pub proof fn lemma_be_round_trip(value: nat, n: nat)
    requires
        value < radix_pow(n),
    ensures
        be_value(be_bytes(value, n)) == value,
    decreases n,
{
    if n > 0 {
        let high = be_bytes(value / 256, (n - 1) as nat);
        lemma_be_round_trip(value / 256, (n - 1) as nat);
        assert(be_bytes(value, n).drop_last() =~= high);
    }
}

/// Holds of the numbers that a random identifier can have: the four bits of
/// the version spell 4 and the two bits of the variant spell binary 10.
pub open spec fn is_random_version(value: u128) -> bool {
    value & 0xF000_C000_0000_0000_0000 == 0x4000_8000_0000_0000_0000
}

/// `bytes`, filled up at the end with bytes `0xFF` to sixteen bytes.
pub open spec fn padded(bytes: Seq<u8>) -> Seq<u8> {
    bytes + Seq::new((16 - bytes.len()) as nat, |i: int| 0xFFu8)
}

/// The identifier that decoded bytes stand for: none if there are more than
/// sixteen, else the number that the padded bytes spell.
pub open spec fn id_of_bytes(bytes: Seq<u8>) -> Result<Uuid, RepoError> {
    if bytes.len() <= 16 {
        Ok(Uuid { value: be_value(padded(bytes)) as u128 })
    } else {
        Err(RepoError::InvalidIdentifier)
    }
}

/// The identifier that a text stands for: the text has to be Base58 and to
/// decode to at most sixteen bytes.
pub open spec fn id_of_text(text: Seq<char>) -> Result<Uuid, RepoError> {
    match base58_bytes(text) {
        Some(bytes) => id_of_bytes(bytes),
        None => Err(RepoError::InvalidIdentifier),
    }
}

/// The text of an identifier: its sixteen bytes in Base58.
pub open spec fn id_text(id: Uuid) -> Seq<char> {
    base58_text(be_bytes(id.value as nat, 16))
}

/// The texts of a list of identifiers.
pub open spec fn id_texts(ids: Seq<Uuid>) -> Seq<Seq<char>> {
    Seq::new(ids.len(), |i: int| id_text(ids[i]))
}

/// The identifiers that a list of texts stands for: none if one of the texts
/// stands for none.
pub open spec fn ids_of_texts(texts: Seq<Seq<char>>) -> Result<Seq<Uuid>, RepoError> {
    if forall|i: int| 0 <= i < texts.len() ==> id_of_text(#[trigger] texts[i]) is Ok {
        Ok(Seq::new(texts.len(), |i: int| id_of_text(texts[i])->Ok_0))
    } else {
        Err(RepoError::InvalidIdentifier)
    }
}

/// The Base58 text of `bytes`, in the Bitcoin alphabet, as `bs58` encodes it.
pub uninterp spec fn base58_text(bytes: Seq<u8>) -> Seq<char>;

/// The bytes that `bs58` decodes `text` to, in the Bitcoin alphabet; none
/// where `text` is not Base58.
pub uninterp spec fn base58_bytes(text: Seq<char>) -> Option<Seq<u8>>;

/// Why `bs58` could not decode a text. Nothing is read from it.
#[verifier::external_type_specification]
#[verifier::external_body]
pub struct ExDecodeError(bs58::decode::Error);

/// Calls `bs58::encode(bytes).into_string()`. Trusted: the text is the one
/// that `base58_text` names, and `bs58` decodes it back to `bytes`.
#[verifier::external_body]
fn encode_base58(bytes: &[u8]) -> (text: String)
    ensures
        text@ == base58_text(bytes@),
        base58_bytes(text@) == Some(bytes@),
{
    bs58::encode(bytes).into_string()
}

/// Calls `bs58::decode(text).into_vec()`. Trusted: the outcome is the one
/// that `base58_bytes` names, an error standing for none.
#[verifier::external_body]
fn decode_base58(text: &str) -> (decoded: Result<Vec<u8>, bs58::decode::Error>)
    ensures
        match decoded {
            Ok(bytes) => base58_bytes(text@) == Some(bytes@),
            Err(_) => base58_bytes(text@) is None,
        },
{
    bs58::decode(text).into_vec()
}

/// Calls `uuid::Uuid::new_v4()` and hands out its number. Trusted: version
/// and variant are those of a random identifier. The other bits are random.
#[verifier::external_body]
fn random_number() -> (value: u128)
    ensures
        is_random_version(value),
{
    uuid::Uuid::new_v4().as_u128()
}

impl Default for Uuid {
    /// A fresh identifier, as `Uuid::new` gives it.
    fn default() -> (id: Uuid)
        ensures
            is_random_version(id.value),
    {
        Uuid::new()
    }
}

/// The text form of an identifier.
pub trait UuidExt: Sized {
    /// The canonical text of the identifier.
    fn to_base58(&self) -> String;

    /// The identifier that `text` stands for.
    fn try_from_base58(text: &str) -> Result<Self, RepoError>;
}

impl UuidExt for Uuid {
    /// The Base58 text of the sixteen bytes. Reading it gives the identifier
    /// back.
    fn to_base58(&self) -> (text: String)
        ensures
            text@ == id_text(*self),
            id_of_text(text@) == Ok::<Uuid, RepoError>(*self),
    {
        let bytes = self.to_bytes();
        encode_base58(bytes.as_slice())
    }

    /// Fails with `InvalidIdentifier` where `text` is not Base58 or decodes to
    /// more than sixteen bytes. Fewer bytes are filled up with `0xFF`.
    fn try_from_base58(text: &str) -> (parsed: Result<Uuid, RepoError>)
        ensures
            parsed == id_of_text(text@),
    {
        match decode_base58(text) {
            Ok(bytes) => Uuid::from_decoded(bytes.as_slice()),
            Err(_) => Err(RepoError::InvalidIdentifier),
        }
    }
}

impl Uuid {
    /// A fresh identifier, drawn at random.
    pub fn new() -> (id: Uuid)
        ensures
            is_random_version(id.value),
    {
        Uuid { value: random_number() }
    }

    /// The sixteen bytes of the identifier, most significant first. They
    /// stand for the identifier again.
    pub fn to_bytes(&self) -> (bytes: Vec<u8>)
        ensures
            bytes@ == be_bytes(self.value as nat, 16),
            id_of_bytes(bytes@) == Ok::<Uuid, RepoError>(*self),
    {
        let mut bytes: Vec<u8> = Vec::new();
        let mut rest: u128 = self.value;
        let mut done: usize = 0;
        while done < 16
            invariant
                done <= 16,
                bytes@.len() == done,
                be_bytes(self.value as nat, 16) == be_bytes(rest as nat, (16 - done) as nat)
                    + bytes@,
            decreases 16 - done,
        {
            let low: u8 = (rest % 256) as u8;
            let ghost before = bytes@;
            bytes.insert(0, low);
            proof {
                let high = be_bytes(rest as nat / 256, (15 - done) as nat);
                assert(be_bytes(rest as nat, (16 - done) as nat) == high.push(low));
                assert(high.push(low) + before =~= high + bytes@);
            }
            rest = rest / 256;
            done = done + 1;
        }
        proof {
            lemma_be_bytes_len(self.value as nat, 16);
            lemma_radix_pow_16();
            lemma_be_round_trip(self.value as nat, 16);
            assert(padded(bytes@) =~= bytes@);
        }
        bytes
    }

    /// The identifier that decoded bytes stand for. Fails with
    /// `InvalidIdentifier` where there are more than sixteen; fewer are filled
    /// up at the end with `0xFF`.
    pub fn from_decoded(bytes: &[u8]) -> (id: Result<Uuid, RepoError>)
        ensures
            id == id_of_bytes(bytes@),
    {
        if bytes.len() > 16 {
            return Err(RepoError::InvalidIdentifier);
        }
        let ghost all = padded(bytes@);
        let mut number: u128 = 0;
        let mut done: usize = 0;
        while done < 16
            invariant
                done <= 16,
                bytes@.len() <= 16,
                all == padded(bytes@),
                number == be_value(all.take(done as int)),
            decreases 16 - done,
        {
            let next: u8 = if done < bytes.len() {
                bytes[done]
            } else {
                0xFF
            };
            proof {
                lemma_be_value_bound(all.take(done as int));
                lemma_radix_pow_grows(done as nat + 1, 16);
                lemma_radix_pow_16();
                assert(all.take(done + 1).drop_last() =~= all.take(done as int));
                assert(all.take(done + 1).last() == next);
            }
            number = number * 256 + next as u128;
            done = done + 1;
        }
        assert(all.take(16) =~= all);
        Ok(Uuid { value: number })
    }

    /// The identifier that holds `value`.
    pub fn from_u128(value: u128) -> (id: Uuid)
        ensures
            id.value == value,
    {
        Uuid { value }
    }

    /// The number that the identifier holds.
    pub fn as_u128(&self) -> (value: u128)
        ensures
            value == self.value,
    {
        self.value
    }
}

/// The texts of the identifiers of a list, in the order of the list.
pub fn to_base58_list(ids: &Vec<Uuid>) -> (texts: Vec<String>)
    ensures
        texts.deep_view() == id_texts(ids@),
        ids_of_texts(texts.deep_view()) == Ok::<Seq<Uuid>, RepoError>(ids@),
{
    let mut texts: Vec<String> = Vec::new();
    let mut next: usize = 0;
    while next < ids.len()
        invariant
            next <= ids@.len(),
            texts@.len() == next,
            forall|i: int|
                0 <= i < next ==> (#[trigger] texts@[i])@ == id_text(ids@[i]) && id_of_text(
                    texts@[i]@,
                ) == Ok::<Uuid, RepoError>(ids@[i]),
        decreases ids@.len() - next,
    {
        texts.push(ids[next].to_base58());
        next = next + 1;
    }
    proof {
        assert(texts.deep_view() =~= id_texts(ids@));
        assert forall|i: int| 0 <= i < texts.deep_view().len() implies id_of_text(
            #[trigger] texts.deep_view()[i],
        ) == Ok::<Uuid, RepoError>(ids@[i]) by {
            assert(texts.deep_view()[i] == texts@[i]@);
        }
        assert(ids_of_texts(texts.deep_view())->Ok_0 =~= ids@);
    }
    texts
}

/// The identifiers that the texts of a list stand for, in the order of the
/// list. Fails with `InvalidIdentifier` where one of the texts stands for
/// none.
pub fn try_from_base58_list(texts: &Vec<String>) -> (ids: Result<Vec<Uuid>, RepoError>)
    ensures
        match ids {
            Ok(list) => ids_of_texts(texts.deep_view()) == Ok::<Seq<Uuid>, RepoError>(list@),
            Err(error) => ids_of_texts(texts.deep_view()) == Err::<Seq<Uuid>, RepoError>(error),
        },
{
    let mut ids: Vec<Uuid> = Vec::new();
    let mut next: usize = 0;
    while next < texts.len()
        invariant
            next <= texts@.len(),
            ids@.len() == next,
            forall|i: int|
                0 <= i < next ==> id_of_text(texts@[i]@) == Ok::<Uuid, RepoError>(
                    #[trigger] ids@[i],
                ),
        decreases texts@.len() - next,
    {
        match Uuid::try_from_base58(texts[next].as_str()) {
            Ok(id) => {
                ids.push(id);
            },
            Err(error) => {
                assert(texts.deep_view()[next as int] == texts@[next as int]@);
                return Err(error);
            },
        }
        next = next + 1;
    }
    proof {
        assert forall|i: int| 0 <= i < texts.deep_view().len() implies id_of_text(
            #[trigger] texts.deep_view()[i],
        ) is Ok by {
            assert(texts.deep_view()[i] == texts@[i]@);
            assert(id_of_text(texts@[i]@) == Ok::<Uuid, RepoError>(ids@[i]));
        }
        assert(ids_of_texts(texts.deep_view())->Ok_0 =~= ids@) by {
            assert forall|i: int| 0 <= i < ids@.len() implies ids_of_texts(
                texts.deep_view(),
            )->Ok_0[i] == ids@[i] by {
                assert(texts.deep_view()[i] == texts@[i]@);
                assert(id_of_text(texts@[i]@) == Ok::<Uuid, RepoError>(ids@[i]));
            }
        }
    }
    Ok(ids)
}

/// The number inside an identifier.
pub fn to_inner(uuid: Uuid) -> (inner: u128)
    ensures
        inner == uuid.value,
{
    uuid.value
}

} // verus!

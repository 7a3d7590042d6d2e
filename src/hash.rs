use vstd::prelude::*;

verus! {

/// Number of bytes in a hash value.
pub const HASH_LENGTH: usize = 32;

/// Number of bits in a hash value.
pub const HASH_LENGTH_IN_BITS: usize = 256;

/// A 32-byte digest.
#[derive(Clone, Copy, Debug, Eq, PartialOrd, Ord, Hash)]
pub struct HashValue {
    pub hash: [u8; 32],
}

/// Failure of building a hash value from a byte slice.
#[derive(Clone, Copy, Debug, PartialEq, Eq, Structural)]
pub enum HashValueError {
    /// The slice did not hold exactly 32 bytes.
    WrongHashLength { len: usize },
}

/// Bit `i` of the byte string `s`, bit 0 being the most significant bit of
/// byte 0.
pub open spec fn bit_of(s: Seq<u8>, i: int) -> bool {
    (s[i / 8] >> ((7 - (i % 8)) as u8)) & 1u8 == 1u8
}

/// The bits of a 32-byte string, most significant first.
pub open spec fn bits_of(s: Seq<u8>) -> Seq<bool> {
    Seq::new(256, |i: int| bit_of(s, i))
}

/// Length of the longest common prefix of the bit strings of `a` and `b`,
/// counted from bit `i` on.
pub open spec fn common_prefix_from(a: Seq<u8>, b: Seq<u8>, i: int) -> int
    decreases 256 - i,
{
    if i >= 256 {
        256
    } else if bit_of(a, i) != bit_of(b, i) {
        i
    } else {
        common_prefix_from(a, b, i + 1)
    }
}

/// Number of leading bits on which `a` and `b` agree.
pub open spec fn common_prefix_len(a: Seq<u8>, b: Seq<u8>) -> int {
    common_prefix_from(a, b, 0)
}

proof fn lemma_common_prefix_from(a: Seq<u8>, b: Seq<u8>, i: int)
    requires
        0 <= i <= 256,
    ensures
        i <= common_prefix_from(a, b, i) <= 256,
        forall|j: int| i <= j < common_prefix_from(a, b, i) ==> bit_of(a, j) == bit_of(b, j),
        common_prefix_from(a, b, i) < 256 ==> bit_of(a, common_prefix_from(a, b, i)) != bit_of(
            b,
            common_prefix_from(a, b, i),
        ),
        common_prefix_from(a, b, i) == common_prefix_from(b, a, i),
    decreases 256 - i,
{
    if i < 256 && bit_of(a, i) == bit_of(b, i) {
        lemma_common_prefix_from(a, b, i + 1);
    }
}

proof fn lemma_byte_from_bits(x: u8, y: u8)
    requires
        ((x >> 7u8) & 1u8 == 1u8) == ((y >> 7u8) & 1u8 == 1u8),
        ((x >> 6u8) & 1u8 == 1u8) == ((y >> 6u8) & 1u8 == 1u8),
        ((x >> 5u8) & 1u8 == 1u8) == ((y >> 5u8) & 1u8 == 1u8),
        ((x >> 4u8) & 1u8 == 1u8) == ((y >> 4u8) & 1u8 == 1u8),
        ((x >> 3u8) & 1u8 == 1u8) == ((y >> 3u8) & 1u8 == 1u8),
        ((x >> 2u8) & 1u8 == 1u8) == ((y >> 2u8) & 1u8 == 1u8),
        ((x >> 1u8) & 1u8 == 1u8) == ((y >> 1u8) & 1u8 == 1u8),
        ((x >> 0u8) & 1u8 == 1u8) == ((y >> 0u8) & 1u8 == 1u8),
    ensures
        x == y,
{
    assert(x == y) by (bit_vector)
        requires
            ((x >> 7u8) & 1u8 == 1u8) == ((y >> 7u8) & 1u8 == 1u8),
            ((x >> 6u8) & 1u8 == 1u8) == ((y >> 6u8) & 1u8 == 1u8),
            ((x >> 5u8) & 1u8 == 1u8) == ((y >> 5u8) & 1u8 == 1u8),
            ((x >> 4u8) & 1u8 == 1u8) == ((y >> 4u8) & 1u8 == 1u8),
            ((x >> 3u8) & 1u8 == 1u8) == ((y >> 3u8) & 1u8 == 1u8),
            ((x >> 2u8) & 1u8 == 1u8) == ((y >> 2u8) & 1u8 == 1u8),
            ((x >> 1u8) & 1u8 == 1u8) == ((y >> 1u8) & 1u8 == 1u8),
            ((x >> 0u8) & 1u8 == 1u8) == ((y >> 0u8) & 1u8 == 1u8),
    ;
}

proof fn lemma_split_bit_index(k: int, j: int)
    requires
        0 <= j < 8,
    ensures
        (8 * k + j) / 8 == k,
        (8 * k + j) % 8 == j,
{
    assert((8 * k + j) / 8 == k && (8 * k + j) % 8 == j) by (nonlinear_arith)
        requires
            0 <= j < 8,
    ;
}

/// Two 32-byte strings with the same bits are equal.
pub proof fn lemma_bits_determine_bytes(a: Seq<u8>, b: Seq<u8>)
    requires
        a.len() == 32,
        b.len() == 32,
        forall|i: int| 0 <= i < 256 ==> bit_of(a, i) == bit_of(b, i),
    ensures
        a == b,
{
    assert forall|k: int| 0 <= k < 32 implies a[k] == b[k] by {
        let x = a[k];
        let y = b[k];
        lemma_split_bit_index(k, 0);
        lemma_split_bit_index(k, 1);
        lemma_split_bit_index(k, 2);
        lemma_split_bit_index(k, 3);
        lemma_split_bit_index(k, 4);
        lemma_split_bit_index(k, 5);
        lemma_split_bit_index(k, 6);
        lemma_split_bit_index(k, 7);
        assert(bit_of(a, 8 * k + 0) == bit_of(b, 8 * k + 0));
        assert(bit_of(a, 8 * k + 1) == bit_of(b, 8 * k + 1));
        assert(bit_of(a, 8 * k + 2) == bit_of(b, 8 * k + 2));
        assert(bit_of(a, 8 * k + 3) == bit_of(b, 8 * k + 3));
        assert(bit_of(a, 8 * k + 4) == bit_of(b, 8 * k + 4));
        assert(bit_of(a, 8 * k + 5) == bit_of(b, 8 * k + 5));
        assert(bit_of(a, 8 * k + 6) == bit_of(b, 8 * k + 6));
        assert(bit_of(a, 8 * k + 7) == bit_of(b, 8 * k + 7));
        lemma_byte_from_bits(x, y);
    }
    assert(a =~= b);
}

/// The common prefix of two hash values is at most 256 bits long, does not
/// depend on the order of the arguments, and is 256 bits long exactly when
/// the two values are equal.
pub proof fn lemma_common_prefix_bound(a: HashValue, b: HashValue)
    ensures
        0 <= common_prefix_len(a@, b@) <= 256,
        common_prefix_len(a@, b@) == common_prefix_len(b@, a@),
        common_prefix_len(a@, b@) == 256 <==> a == b,
{
    lemma_common_prefix_from(a@, b@, 0);
    if common_prefix_len(a@, b@) == 256 {
        lemma_bits_determine_bytes(a@, b@);
        lemma_view_injective(a, b);
    }
}

/// The leading `common_prefix_len(a@, b@)` bits of `a` and `b` agree.
pub proof fn lemma_common_prefix_bits_agree(a: HashValue, b: HashValue)
    ensures
        forall|i: int| 0 <= i < common_prefix_len(a@, b@) ==> bit_of(a@, i) == bit_of(b@, i),
{
    lemma_common_prefix_from(a@, b@, 0);
}

/// Reversing the bit sequence of a hash value twice gives it back.
pub proof fn lemma_bits_reverse_twice(h: HashValue)
    ensures
        bits_of(h@).reverse().reverse() == bits_of(h@),
{
    assert(bits_of(h@).reverse().reverse() =~= bits_of(h@));
}

/// The lowercase hexadecimal digit for `n`, which is below 16.
pub open spec fn hex_digit(n: u8) -> char {
    seq!['0', '1', '2', '3', '4', '5', '6', '7', '8', '9', 'a', 'b', 'c', 'd', 'e', 'f'][n as int]
}

/// The lowercase hexadecimal text of `s`: two digits per byte, high nibble
/// first, with no prefix and no separators.
pub open spec fn hex_of(s: Seq<u8>) -> Seq<char>
    decreases s.len(),
{
    if s.len() == 0 {
        Seq::empty()
    } else {
        let b = s.last();
        hex_of(s.drop_last()) + seq![hex_digit(b >> 4u8), hex_digit(b & 15u8)]
    }
}

proof fn lemma_hex_of_len(s: Seq<u8>)
    ensures
        hex_of(s).len() == 2 * s.len(),
    decreases s.len(),
{
    if s.len() > 0 {
        lemma_hex_of_len(s.drop_last());
    }
}

fn hex_digit_str(n: u8) -> (r: &'static str)
    requires
        n < 16,
    ensures
        r@ == seq![hex_digit(n)],
{
    match n {
        0u8 => {
            proof {
                reveal_strlit("0");
            }
            "0"
        },
        1u8 => {
            proof {
                reveal_strlit("1");
            }
            "1"
        },
        2u8 => {
            proof {
                reveal_strlit("2");
            }
            "2"
        },
        3u8 => {
            proof {
                reveal_strlit("3");
            }
            "3"
        },
        4u8 => {
            proof {
                reveal_strlit("4");
            }
            "4"
        },
        5u8 => {
            proof {
                reveal_strlit("5");
            }
            "5"
        },
        6u8 => {
            proof {
                reveal_strlit("6");
            }
            "6"
        },
        7u8 => {
            proof {
                reveal_strlit("7");
            }
            "7"
        },
        8u8 => {
            proof {
                reveal_strlit("8");
            }
            "8"
        },
        9u8 => {
            proof {
                reveal_strlit("9");
            }
            "9"
        },
        10u8 => {
            proof {
                reveal_strlit("a");
            }
            "a"
        },
        11u8 => {
            proof {
                reveal_strlit("b");
            }
            "b"
        },
        12u8 => {
            proof {
                reveal_strlit("c");
            }
            "c"
        },
        13u8 => {
            proof {
                reveal_strlit("d");
            }
            "d"
        },
        14u8 => {
            proof {
                reveal_strlit("e");
            }
            "e"
        },
        15u8 => {
            proof {
                reveal_strlit("f");
            }
            "f"
        },
        _ => {
            proof {
                reveal_strlit("f");
            }
            "f"
        },
    }
}

impl PartialEq for HashValue {
    fn eq(&self, other: &HashValue) -> (r: bool) {
        let mut i: usize = 0;
        while i < 32
            invariant
                i <= 32,
                forall|j: int| 0 <= j < i ==> self@[j] == other@[j],
            decreases 32 - i,
        {
            if self.hash[i] != other.hash[i] {
                return false;
            }
            i = i + 1;
        }
        assert(self@ =~= other@);
        true
    }
}

impl vstd::std_specs::cmp::PartialEqSpecImpl for HashValue {
    open spec fn obeys_eq_spec() -> bool {
        true
    }

    open spec fn eq_spec(&self, other: &HashValue) -> bool {
        self@ == other@
    }
}

/// Two hash values are equal exactly when their bytes are.
pub proof fn lemma_view_injective(a: HashValue, b: HashValue)
    ensures
        a@ == b@ <==> a == b,
{
    if a@ == b@ {
        assert(a.hash =~= b.hash);
    }
}

impl View for HashValue {
    type V = Seq<u8>;

    open spec fn view(&self) -> Seq<u8> {
        self.hash@
    }
}

impl HashValue {
    /// Builds a hash value from 32 bytes.
    pub fn new(hash: [u8; 32]) -> (r: HashValue)
        ensures
            r@ == hash@,
    {
        HashValue { hash }
    }

    /// The all-zero hash value.
    pub fn zero() -> (r: HashValue)
        ensures
            r@ == Seq::new(32, |i: int| 0u8),
    {
        let r = HashValue { hash: [0u8; 32] };
        assert(r@ =~= Seq::new(32, |i: int| 0u8));
        r
    }

    /// Builds a hash value from a slice, which must hold exactly 32 bytes.
    pub fn from_slice(bytes: &[u8]) -> (r: Result<HashValue, HashValueError>)
        ensures
            bytes@.len() == 32 ==> (r matches Ok(h) && h@ == bytes@),
            bytes@.len() != 32 ==> r == Err::<HashValue, HashValueError>(
                HashValueError::WrongHashLength { len: bytes@.len() as usize },
            ),
    {
        if bytes.len() != HASH_LENGTH {
            return Err(HashValueError::WrongHashLength { len: bytes.len() });
        }
        let mut hash = [0u8; 32];
        let mut i: usize = 0;
        while i < 32
            invariant
                i <= 32,
                bytes@.len() == 32,
                forall|j: int| 0 <= j < i ==> hash@[j] == bytes@[j],
            decreases 32 - i,
        {
            hash[i] = bytes[i];
            i = i + 1;
        }
        assert(hash@ =~= bytes@);
        Ok(HashValue { hash })
    }

    /// The 32 bytes of the value.
    pub fn to_vec(&self) -> (r: Vec<u8>)
        ensures
            r@ == self@,
    {
        let mut v: Vec<u8> = Vec::new();
        let mut i: usize = 0;
        while i < 32
            invariant
                i <= 32,
                v@ == self@.subrange(0, i as int),
            decreases 32 - i,
        {
            v.push(self.hash[i]);
            i = i + 1;
            assert(v@ =~= self@.subrange(0, i as int));
        }
        assert(v@ =~= self@);
        v
    }

    /// The value as 64 lowercase hexadecimal digits.
    pub fn to_hex(&self) -> (r: String)
        ensures
            r@ == hex_of(self@),
            r@.len() == 64,
    {
        let mut r = String::new();
        let mut i: usize = 0;
        while i < 32
            invariant
                i <= 32,
                r@ == hex_of(self@.subrange(0, i as int)),
            decreases 32 - i,
        {
            let b = self.hash[i];
            assert(b >> 4u8 < 16u8) by (bit_vector);
            assert(b & 15u8 < 16u8) by (bit_vector);
            r.append(hex_digit_str(b >> 4u8));
            r.append(hex_digit_str(b & 15u8));
            assert(self@.subrange(0, i + 1).drop_last() =~= self@.subrange(0, i as int));
            i = i + 1;
        }
        assert(self@.subrange(0, 32) =~= self@);
        proof {
            lemma_hex_of_len(self@);
        }
        r
    }

    /// Bit `index` of the value, bit 0 being the most significant bit of
    /// byte 0.
    pub fn bit(&self, index: usize) -> (r: bool)
        requires
            index < 256,
        ensures
            r == bit_of(self@, index as int),
    {
        (self.hash[index / 8] >> ((7 - index % 8) as u8)) & 1u8 == 1u8
    }

    /// All 256 bits, most significant first.
    pub fn iter_bits(&self) -> (r: Vec<bool>)
        ensures
            r@ == bits_of(self@),
    {
        let mut v: Vec<bool> = Vec::new();
        let mut i: usize = 0;
        while i < 256
            invariant
                i <= 256,
                v@ == bits_of(self@).subrange(0, i as int),
            decreases 256 - i,
        {
            let b = self.bit(i);
            v.push(b);
            i = i + 1;
            assert(v@ =~= bits_of(self@).subrange(0, i as int));
        }
        assert(v@ =~= bits_of(self@));
        v
    }

    /// All 256 bits, least significant first.
    pub fn iter_bits_rev(&self) -> (r: Vec<bool>)
        ensures
            r@ == bits_of(self@).reverse(),
    {
        let mut v: Vec<bool> = Vec::new();
        let mut i: usize = 0;
        while i < 256
            invariant
                i <= 256,
                v@ == bits_of(self@).reverse().subrange(0, i as int),
            decreases 256 - i,
        {
            let b = self.bit(255 - i);
            v.push(b);
            i = i + 1;
            assert(v@ =~= bits_of(self@).reverse().subrange(0, i as int));
        }
        assert(v@ =~= bits_of(self@).reverse());
        v
    }

    /// Number of leading bits on which `self` and `other` agree.
    pub fn common_prefix_bits_len(&self, other: HashValue) -> (r: usize)
        ensures
            r == common_prefix_len(self@, other@),
            r <= 256,
            forall|i: int| 0 <= i < r ==> bit_of(self@, i) == bit_of(other@, i),
            r < 256 ==> bit_of(self@, r as int) != bit_of(other@, r as int),
            r == 256 <==> *self == other,
    {
        let mut i: usize = 0;
        while i < 256
            invariant
                i <= 256,
                common_prefix_from(self@, other@, i as int) == common_prefix_len(self@, other@),
            decreases 256 - i,
        {
            if self.bit(i) != other.bit(i) {
                proof {
                    lemma_common_prefix_bound(*self, other);
                    lemma_common_prefix_from(self@, other@, 0);
                }
                return i;
            }
            i = i + 1;
        }
        proof {
            lemma_common_prefix_bound(*self, other);
            lemma_common_prefix_from(self@, other@, 0);
        }
        i
    }
}

} // verus!

use vstd::prelude::*;

verus! {

/// Which kind of ledger entity an address names.
#[derive(Clone, Copy, Debug, PartialEq, Eq, Hash, Structural)]
pub enum AddressKind {
    /// An account, named by its ed25519 public key.
    Account,
    /// A contract, named by its contract id.
    Contract,
}

/// A ledger address held as plain data: its kind and the 32 bytes of its key,
/// read big-endian as two 128-bit halves.
#[derive(Clone, Copy, Debug, PartialEq, Eq, Hash, Structural)]
pub struct Address {
    pub kind: AddressKind,
    pub key_hi: u128,
    pub key_lo: u128,
}

impl Address {
    /// Whether two addresses name the same entity.
    pub fn same_as(&self, other: &Address) -> (r: bool)
        ensures
            r == (*self == *other),
    {
        *self == *other
    }
}


/// Byte `i` (0 first) of the 16-byte big-endian form of `x`.
pub open spec fn key_byte(x: u128, i: int) -> u8 {
    ((x >> ((120 - 8 * i) as u32)) & 0xff) as u8
}

/// The 16-byte big-endian form of `x`.
pub open spec fn key_half_bytes(x: u128) -> Seq<u8> {
    Seq::new(16, |i: int| key_byte(x, i))
}

/// The number that the bytes `bs` spell out, big-endian.
pub open spec fn be_value(bs: Seq<u8>) -> u128
    decreases bs.len(),
{
    if bs.len() == 0 {
        0
    } else {
        (be_value(bs.drop_last()) << 8u32) | (bs.last() as u128)
    }
}

/// The bytes that precede the key in the XDR form of an address value: the
/// value's type (address), the address's type, and for an account the type of
/// its public key (ed25519).
pub open spec fn xdr_header(kind: AddressKind) -> Seq<u8> {
    match kind {
        AddressKind::Account => seq![0u8, 0, 0, 18, 0, 0, 0, 0, 0, 0, 0, 0],
        AddressKind::Contract => seq![0u8, 0, 0, 18, 0, 0, 0, 1],
    }
}

/// The XDR form of an address as a contract value.
pub open spec fn xdr_encoding(a: Address) -> Seq<u8> {
    xdr_header(a.kind) + key_half_bytes(a.key_hi) + key_half_bytes(a.key_lo)
}

/// The address whose XDR form `b` is, if it is one.
pub open spec fn xdr_decoding(b: Seq<u8>) -> Option<Address> {
    if b.len() == 44 && b.take(12) == xdr_header(AddressKind::Account) {
        Some(
            Address {
                kind: AddressKind::Account,
                key_hi: be_value(b.subrange(12, 28)),
                key_lo: be_value(b.subrange(28, 44)),
            },
        )
    } else if b.len() == 40 && b.take(8) == xdr_header(AddressKind::Contract) {
        Some(
            Address {
                kind: AddressKind::Contract,
                key_hi: be_value(b.subrange(8, 24)),
                key_lo: be_value(b.subrange(24, 40)),
            },
        )
    } else {
        None
    }
}

proof fn lemma_byte_step(x: u128, s: u32)
    by (bit_vector)
    requires
        s <= 112,
    ensures
        ((x >> ((s + 8) as u32)) << 8u32) | ((((x >> s) & 0xff) as u8) as u128) == x >> s,
{
}

proof fn lemma_top_byte(x: u128)
    by (bit_vector)
    ensures
        (0u128 << 8u32) | ((((x >> 120u32) & 0xff) as u8) as u128) == x >> 120u32,
{
}

/// The first `k` bytes of the big-endian form of `x` spell out its top `k` bytes.
proof fn lemma_be_value_prefix(x: u128, k: int)
    requires
        1 <= k <= 16,
    ensures
        be_value(key_half_bytes(x).take(k)) == x >> ((128 - 8 * k) as u32),
    decreases k,
{
    let t = key_half_bytes(x).take(k);
    assert(t.drop_last() =~= key_half_bytes(x).take(k - 1));
    assert(t.last() == key_byte(x, k - 1));
    assert(be_value(t) == (be_value(key_half_bytes(x).take(k - 1)) << 8u32) | (key_byte(x, k - 1) as u128));
    if k == 1 {
        assert(key_half_bytes(x).take(0) =~= Seq::<u8>::empty());
        lemma_top_byte(x);
    } else {
        lemma_be_value_prefix(x, k - 1);
        let s = (128 - 8 * k) as u32;
        lemma_byte_step(x, s);
        assert(((120 - 8 * (k - 1)) as u32) == s);
        assert(((128 - 8 * (k - 1)) as u32) == (s + 8) as u32);
    }
}

/// The big-endian form of `x` spells out `x`.
pub proof fn lemma_be_value_of_half(x: u128)
    ensures
        be_value(key_half_bytes(x)) == x,
{
    lemma_be_value_prefix(x, 16);
    assert(key_half_bytes(x).take(16) =~= key_half_bytes(x));
    assert(x >> 0u32 == x) by (bit_vector);
}

/// Reading back the XDR form of an address gives the same address.
pub proof fn law_xdr_round_trip(a: Address)
    ensures
        xdr_decoding(xdr_encoding(a)) == Some(a),
{
    let e = xdr_encoding(a);
    lemma_be_value_of_half(a.key_hi);
    lemma_be_value_of_half(a.key_lo);
    let h = xdr_header(a.kind).len() as int;
    assert(e.take(h) =~= xdr_header(a.kind));
    assert(e.subrange(h, h + 16) =~= key_half_bytes(a.key_hi));
    assert(e.subrange(h + 16, h + 32) =~= key_half_bytes(a.key_lo));
    match a.kind {
        AddressKind::Account => {},
        AddressKind::Contract => {
            assert(e.take(12) != xdr_header(AddressKind::Account) || e.len() != 44);
        },
    }
}


proof fn lemma_low_byte(y: u128, b: u8)
    by (bit_vector)
    ensures
        ((((y << 8u32) | (b as u128)) >> 0u32) & 0xff) as u8 == b,
{
}

proof fn lemma_shifted_byte(y: u128, b: u8, t: u32)
    by (bit_vector)
    requires
        t <= 112,
    ensures
        (((y << 8u32) | (b as u128)) >> ((t + 8) as u32)) & 0xff == (y >> t) & 0xff,
{
}

/// Every byte of `bs` can be read back from the number it spells out.
proof fn lemma_be_value_bytes(bs: Seq<u8>, i: int)
    requires
        1 <= bs.len() <= 16,
        0 <= i < bs.len(),
    ensures
        ((be_value(bs) >> ((8 * (bs.len() - 1 - i)) as u32)) & 0xff) as u8 == bs[i],
    decreases bs.len(),
{
    let y = be_value(bs.drop_last());
    let b = bs.last();
    assert(be_value(bs) == (y << 8u32) | (b as u128));
    if i == bs.len() - 1 {
        lemma_low_byte(y, b);
    } else {
        lemma_be_value_bytes(bs.drop_last(), i);
        let t = (8 * (bs.len() - 2 - i)) as u32;
        lemma_shifted_byte(y, b, t);
        assert(((8 * (bs.len() - 1 - i)) as u32) == (t + 8) as u32);
    }
}

/// Sixteen bytes are the big-endian form of the number they spell out.
pub proof fn lemma_half_of_be_value(bs: Seq<u8>)
    requires
        bs.len() == 16,
    ensures
        key_half_bytes(be_value(bs)) == bs,
{
    assert forall|i: int| 0 <= i < 16 implies key_half_bytes(be_value(bs))[i] == bs[i] by {
        lemma_be_value_bytes(bs, i);
        assert(((120 - 8 * i) as u32) == ((8 * (bs.len() - 1 - i)) as u32));
    }
    assert(key_half_bytes(be_value(bs)) =~= bs);
}

/// The XDR form of an address is the only one that reads back as it.
pub proof fn law_xdr_canonical(b: Seq<u8>, a: Address)
    requires
        xdr_decoding(b) == Some(a),
    ensures
        xdr_encoding(a) == b,
{
    let h = xdr_header(a.kind).len() as int;
    lemma_half_of_be_value(b.subrange(h, h + 16));
    lemma_half_of_be_value(b.subrange(h + 16, h + 32));
    assert(b =~= b.take(h) + b.subrange(h, h + 16) + b.subrange(h + 16, h + 32));
}

fn push_half(out: &mut Vec<u8>, x: u128)
    ensures
        final(out)@ == old(out)@ + key_half_bytes(x),
{
    let ghost start = out@;
    for i in 0..16u32
        invariant
            out@ == start + key_half_bytes(x).take(i as int),
    {
        let shift: u32 = 120 - 8 * i;
        out.push(((x >> shift) & 0xff) as u8);
        assert(key_half_bytes(x).take(i + 1) =~= key_half_bytes(x).take(i as int).push(
            key_byte(x, i as int),
        ));
        assert(out@ =~= start + key_half_bytes(x).take(i + 1));
    }
    assert(key_half_bytes(x).take(16) =~= key_half_bytes(x));
}

fn read_half(b: &[u8], start: usize) -> (r: u128)
    requires
        start + 16 <= b@.len(),
    ensures
        r == be_value(b@.subrange(start as int, start + 16)),
{
    let mut acc: u128 = 0;
    let n = b.len();
    assert(b@.subrange(start as int, start as int) =~= Seq::<u8>::empty());
    for k in 0..16usize
        invariant
            n == b@.len(),
            start + 16 <= b@.len(),
            acc == be_value(b@.subrange(start as int, start + k)),
    {
        assert(b@.subrange(start as int, start + k + 1).drop_last() =~= b@.subrange(
            start as int,
            start + k,
        ));
        acc = (acc << 8u32) | (b[start + k] as u128);
    }
    acc
}

impl Address {
    /// The XDR form of this address as a contract value.
    pub fn to_xdr_bytes(&self) -> (r: Vec<u8>)
        ensures
            r@ == xdr_encoding(*self),
    {
        let mut out: Vec<u8> = Vec::new();
        out.push(0);
        out.push(0);
        out.push(0);
        out.push(18);
        match self.kind {
            AddressKind::Account => {
                out.push(0);
                out.push(0);
                out.push(0);
                out.push(0);
                out.push(0);
                out.push(0);
                out.push(0);
                out.push(0);
            },
            AddressKind::Contract => {
                out.push(0);
                out.push(0);
                out.push(0);
                out.push(1);
            },
        }
        assert(out@ =~= xdr_header(self.kind));
        push_half(&mut out, self.key_hi);
        push_half(&mut out, self.key_lo);
        out
    }

    /// The address whose XDR form `b` is; `None` when `b` is no such form.
    pub fn from_xdr_bytes(b: &[u8]) -> (r: Option<Address>)
        ensures
            r == xdr_decoding(b@),
    {
        let n = b.len();
        if n == 44 && b[0] == 0 && b[1] == 0 && b[2] == 0 && b[3] == 18 && b[4] == 0 && b[5] == 0
            && b[6] == 0 && b[7] == 0 && b[8] == 0 && b[9] == 0 && b[10] == 0 && b[11] == 0 {
            assert(b@.take(12) =~= xdr_header(AddressKind::Account));
            Some(
                Address {
                    kind: AddressKind::Account,
                    key_hi: read_half(b, 12),
                    key_lo: read_half(b, 28),
                },
            )
        } else if n == 40 && b[0] == 0 && b[1] == 0 && b[2] == 0 && b[3] == 18 && b[4] == 0 && b[5]
            == 0 && b[6] == 0 && b[7] == 1 {
            assert(b@.take(8) =~= xdr_header(AddressKind::Contract));
            Some(
                Address {
                    kind: AddressKind::Contract,
                    key_hi: read_half(b, 8),
                    key_lo: read_half(b, 24),
                },
            )
        } else {
            proof {
                if n == 44 && b@.take(12) == xdr_header(AddressKind::Account) {
                    assert(b@.take(12)[3] == b@[3]);
                    assert(false);
                }
            }
            None
        }
    }
}

} // verus!

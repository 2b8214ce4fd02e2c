//! Growable tables as compiled programs hold them, bytes and bits in a table of integers,
//! and the random numbers.
use vstd::prelude::*;

verus! {

/// A table: its slots, the number of slots there is room for, and the width of one slot in
/// bytes. Every slot is kept as 64 bits: an integer as it is, a float by its bits, a
/// string by its handle, a boolean as 0 or 1.
pub struct DynTable {
    pub slots: Vec<i64>,
    pub cap: usize,
    pub elem_size: i64,
}

/// The room that a table has once it holds one slot more.
pub open spec fn grown_cap(len: nat, cap: nat) -> nat {
    if len < cap {
        cap
    } else if cap == 0 {
        8
    } else {
        cap * 2
    }
}

/// What reading position `i` of the slots gives.
pub open spec fn slot_at(s: Seq<i64>, i: i64) -> Option<i64> {
    if 0 <= i < s.len() {
        Some(s[i as int])
    } else {
        None
    }
}

/// The slots after writing `x` at position `i`: as they were where there is no such
/// position.
pub open spec fn slot_put(s: Seq<i64>, i: i64, x: i64) -> Seq<i64> {
    if 0 <= i < s.len() {
        s.update(i as int, x)
    } else {
        s
    }
}

impl DynTable {
    /// The slots in use fit the room there is, and the room fits into memory.
    pub open spec fn wf(self) -> bool {
        &&& self.slots@.len() <= self.cap
        &&& self.elem_size > 0
        &&& self.cap * self.elem_size <= isize::MAX
    }

    /// Whether there is memory for one slot more.
    pub open spec fn may_grow(self) -> bool {
        grown_cap(self.slots@.len(), self.cap as nat) * self.elem_size <= isize::MAX
    }

    /// Whether `i` is the position of a slot.
    pub open spec fn in_range(self, i: i64) -> bool {
        0 <= i < self.slots@.len()
    }

    /// Whether a slot can be appended.
    pub fn can_push(&self) -> (r: bool)
        requires
            self.wf(),
        ensures
            r == self.may_grow(),
    {
        let cap: u128 = if self.slots.len() < self.cap {
            self.cap as u128
        } else if self.cap == 0 {
            8
        } else {
            self.cap as u128 * 2
        };
        let width: u128 = self.elem_size as u128;
        proof {
            assert(0 <= cap * width <= 0x1_ffff_ffff_ffff_fffe * 0x7fff_ffff_ffff_ffff)
                by (nonlinear_arith)
                requires
                    0 <= cap <= 0x1_ffff_ffff_ffff_fffe,
                    0 <= width <= 0x7fff_ffff_ffff_ffff,
            ;
        }
        cap * width <= isize::MAX as u128
    }

    /// Makes room for one slot more: eight slots at first, then twice as many each time.
    fn dyn_table_grow(&mut self)
        requires
            old(self).wf(),
            old(self).may_grow(),
        ensures
            final(self).slots@ == old(self).slots@,
            final(self).cap == grown_cap(old(self).slots@.len(), old(self).cap as nat),
            final(self).elem_size == old(self).elem_size,
    {
        if self.slots.len() < self.cap {
            return ;
        }
        proof {
            let c = grown_cap(self.slots@.len(), self.cap as nat);
            let e = self.elem_size as int;
            assert(c <= c * e) by (nonlinear_arith)
                requires
                    e >= 1,
                    c >= 0,
            ;
        }
        self.cap = if self.cap == 0 {
            8
        } else {
            self.cap * 2
        };
    }

    /// An empty table of slots of the given width.
    pub fn tie_table_new(elem_size: i64) -> (t: DynTable)
        requires
            elem_size > 0,
        ensures
            t.wf(),
            t.slots@ == Seq::<i64>::empty(),
            t.cap == 0,
            t.elem_size == elem_size,
    {
        DynTable { slots: Vec::new(), cap: 0, elem_size }
    }

    /// The number of slots in use.
    pub fn tie_table_len(&self) -> (n: i64)
        requires
            self.wf(),
        ensures
            n == self.slots@.len(),
    {
        proof {
            let c = self.cap as int;
            let e = self.elem_size as int;
            assert(c <= c * e) by (nonlinear_arith)
                requires
                    e >= 1,
                    c >= 0,
            ;
        }
        self.slots.len() as i64
    }

    fn push_slot(&mut self, x: i64)
        requires
            old(self).wf(),
            old(self).may_grow(),
        ensures
            final(self).wf(),
            final(self).slots@ == old(self).slots@.push(x),
            final(self).cap == grown_cap(old(self).slots@.len(), old(self).cap as nat),
            final(self).elem_size == old(self).elem_size,
    {
        self.dyn_table_grow();
        self.slots.push(x);
    }

    fn at_slot(&self, i: i64) -> (r: Option<i64>)
        ensures
            r == slot_at(self.slots@, i),
    {
        if i < 0 || i as u64 >= self.slots.len() as u64 {
            None
        } else {
            Some(self.slots[i as usize])
        }
    }

    fn set_slot(&mut self, i: i64, x: i64) -> (ok: bool)
        ensures
            ok == old(self).in_range(i),
            final(self).slots@ == slot_put(old(self).slots@, i, x),
            final(self).cap == old(self).cap,
            final(self).elem_size == old(self).elem_size,
    {
        if i < 0 || i as u64 >= self.slots.len() as u64 {
            false
        } else {
            self.slots.set(i as usize, x);
            true
        }
    }

    /// Appends an integer.
    pub fn tie_table_push_i64(&mut self, x: i64)
        requires
            old(self).wf(),
            old(self).may_grow(),
        ensures
            final(self).wf(),
            final(self).slots@ == old(self).slots@.push(x),
            final(self).cap == grown_cap(old(self).slots@.len(), old(self).cap as nat),
            final(self).elem_size == old(self).elem_size,
    {
        self.push_slot(x);
    }

    /// Appends a float, given by its bits.
    pub fn tie_table_push_f64(&mut self, bits: u64)
        requires
            old(self).wf(),
            old(self).may_grow(),
        ensures
            final(self).wf(),
            final(self).slots@ == old(self).slots@.push(bits as i64),
            final(self).cap == grown_cap(old(self).slots@.len(), old(self).cap as nat),
            final(self).elem_size == old(self).elem_size,
    {
        self.push_slot(#[verifier::truncate] (bits as i64));
    }

    /// Appends a string, given by its handle; the string itself is not copied.
    pub fn tie_table_push_string(&mut self, handle: i64)
        requires
            old(self).wf(),
            old(self).may_grow(),
        ensures
            final(self).wf(),
            final(self).slots@ == old(self).slots@.push(handle),
            final(self).cap == grown_cap(old(self).slots@.len(), old(self).cap as nat),
            final(self).elem_size == old(self).elem_size,
    {
        self.push_slot(handle);
    }

    /// Appends a boolean, given as 0 or 1.
    pub fn tie_table_push_bool(&mut self, x: i8)
        requires
            old(self).wf(),
            old(self).may_grow(),
        ensures
            final(self).wf(),
            final(self).slots@ == old(self).slots@.push(x as i64),
            final(self).cap == grown_cap(old(self).slots@.len(), old(self).cap as nat),
            final(self).elem_size == old(self).elem_size,
    {
        self.push_slot(x as i64);
    }

    /// The integer at position `i`, or `None` where there is none.
    pub fn tie_table_at_i64(&self, i: i64) -> (r: Option<i64>)
        ensures
            r == slot_at(self.slots@, i),
    {
        self.at_slot(i)
    }

    /// The bits of the float at position `i`, or `None` where there is none.
    pub fn tie_table_at_f64(&self, i: i64) -> (r: Option<u64>)
        ensures
            r == (match slot_at(self.slots@, i) {
                Some(x) => Some(x as u64),
                None => None,
            }),
    {
        match self.at_slot(i) {
            Some(x) => Some(#[verifier::truncate] (x as u64)),
            None => None,
        }
    }

    /// The handle of the string at position `i`, or `None` where there is none.
    pub fn tie_table_at_string(&self, i: i64) -> (r: Option<i64>)
        ensures
            r == slot_at(self.slots@, i),
    {
        self.at_slot(i)
    }

    /// The boolean at position `i` as 0 or 1, or `None` where there is none.
    pub fn tie_table_at_bool(&self, i: i64) -> (r: Option<i8>)
        ensures
            r == (match slot_at(self.slots@, i) {
                Some(x) => Some(x as i8),
                None => None,
            }),
    {
        match self.at_slot(i) {
            Some(x) => Some(#[verifier::truncate] (x as i8)),
            None => None,
        }
    }

    /// Writes an integer at position `i`; `false`, and nothing written, where there is no
    /// such position.
    pub fn tie_table_set_i64(&mut self, i: i64, x: i64) -> (ok: bool)
        ensures
            ok == old(self).in_range(i),
            final(self).slots@ == slot_put(old(self).slots@, i, x),
            final(self).cap == old(self).cap,
            final(self).elem_size == old(self).elem_size,
    {
        self.set_slot(i, x)
    }

    /// Writes a float, given by its bits, at position `i`.
    pub fn tie_table_set_f64(&mut self, i: i64, bits: u64) -> (ok: bool)
        ensures
            ok == old(self).in_range(i),
            final(self).slots@ == slot_put(old(self).slots@, i, bits as i64),
            final(self).cap == old(self).cap,
            final(self).elem_size == old(self).elem_size,
    {
        self.set_slot(i, #[verifier::truncate] (bits as i64))
    }

    /// Writes a string, given by its handle, at position `i`.
    pub fn tie_table_set_string(&mut self, i: i64, handle: i64) -> (ok: bool)
        ensures
            ok == old(self).in_range(i),
            final(self).slots@ == slot_put(old(self).slots@, i, handle),
            final(self).cap == old(self).cap,
            final(self).elem_size == old(self).elem_size,
    {
        self.set_slot(i, handle)
    }

    /// Writes a boolean, given as 0 or 1, at position `i`.
    pub fn tie_table_set_bool(&mut self, i: i64, x: i8) -> (ok: bool)
        ensures
            ok == old(self).in_range(i),
            final(self).slots@ == slot_put(old(self).slots@, i, x as i64),
            final(self).cap == old(self).cap,
            final(self).elem_size == old(self).elem_size,
    {
        self.set_slot(i, x as i64)
    }
}

// ---------- bytes and bits ----------
/// A table of integers as bytes: what is below 0 counts as 0, what is above 255 as 255.
pub open spec fn to_byte(v: i64) -> u8 {
    if v < 0 {
        0
    } else if v > 255 {
        255
    } else {
        v as u8
    }
}

/// The bytes that a table of integers is written as.
pub fn table_bytes(v: &Vec<i64>) -> (r: Vec<u8>)
    ensures
        r@ == v@.map_values(|x: i64| to_byte(x)),
{
    let mut r: Vec<u8> = Vec::new();
    for i in 0..v.len()
        invariant
            r@.len() == i,
            forall|j: int| 0 <= j < i ==> r@[j] == to_byte(#[trigger] v@[j]),
    {
        let x: i64 = v[i];
        r.push(
            if x < 0 {
                0
            } else if x > 255 {
                255
            } else {
                x as u8
            },
        );
    }
    assert(r@ =~= v@.map_values(|x: i64| to_byte(x)));
    r
}

/// The integers that bytes are read as.
pub fn bytes_table(v: &Vec<u8>) -> (r: Vec<i64>)
    ensures
        r@ == v@.map_values(|x: u8| x as i64),
{
    let mut r: Vec<i64> = Vec::new();
    for i in 0..v.len()
        invariant
            r@.len() == i,
            forall|j: int| 0 <= j < i ==> r@[j] == (#[trigger] v@[j]) as i64,
    {
        r.push(v[i] as i64);
    }
    assert(r@ =~= v@.map_values(|x: u8| x as i64));
    r
}

/// The bit `k` of an integer.
pub open spec fn bit_of(v: i64, k: u64) -> i64 {
    (v >> k) & 1i64
}

/// The integer `v` with the bit `k` set or cleared.
pub open spec fn with_bit(v: i64, k: u64, on: bool) -> i64 {
    if on {
        v | (1i64 << k)
    } else {
        v & !(1i64 << k)
    }
}

/// Whether bit `pos` lies in the table, counted from the lowest bit of the first byte.
pub open spec fn bit_in(len: nat, pos: i64) -> bool {
    0 <= pos && pos / 8 < len
}

/// The bit at `pos`: 0 outside the table.
pub open spec fn bit_at(v: Seq<i64>, pos: i64) -> i64 {
    if bit_in(v.len(), pos) {
        bit_of(v[pos as int / 8], (pos % 8) as u64)
    } else {
        0
    }
}

/// The table with the bit at `pos` set or cleared; as it was where `pos` lies outside.
pub open spec fn bit_put(v: Seq<i64>, pos: i64, bit: i64) -> Seq<i64> {
    if bit_in(v.len(), pos) {
        v.update(pos as int / 8, with_bit(v[pos as int / 8], (pos % 8) as u64, bit != 0))
    } else {
        v
    }
}

/// Reads the bit at `pos`.
pub fn tie_bit_read(bytes: &Vec<i64>, pos: i64) -> (r: i64)
    ensures
        r == bit_at(bytes@, pos),
{
    if pos < 0 || pos as u64 / 8 >= bytes.len() as u64 {
        return 0;
    }
    let v: i64 = bytes[(pos as u64 / 8) as usize];
    let k: u64 = pos as u64 % 8;
    (v >> k) & 1
}

/// Writes the bit at `pos`; `false` where it lies outside the table.
pub fn tie_bit_write(bytes: &mut Vec<i64>, pos: i64, bit: i64) -> (ok: bool)
    ensures
        ok == bit_in(old(bytes)@.len(), pos),
        final(bytes)@ == bit_put(old(bytes)@, pos, bit),
{
    if pos < 0 || pos as u64 / 8 >= bytes.len() as u64 {
        return false;
    }
    let at: usize = (pos as u64 / 8) as usize;
    let k: u64 = pos as u64 % 8;
    let v: i64 = bytes[at];
    let w: i64 = if bit != 0 {
        v | (1i64 << k)
    } else {
        v & !(1i64 << k)
    };
    bytes.set(at, w);
    true
}

/// One table after the other.
pub fn tie_byte_concat(a: &Vec<i64>, b: &Vec<i64>) -> (r: Vec<i64>)
    ensures
        r@ == a@ + b@,
{
    let mut r: Vec<i64> = Vec::new();
    for i in 0..a.len()
        invariant
            r@ == a@.take(i as int),
    {
        r.push(a[i]);
        assert(a@.take(i + 1) =~= a@.take(i as int).push(a@[i as int]));
    }
    for i in 0..b.len()
        invariant
            r@ == a@ + b@.take(i as int),
    {
        r.push(b[i]);
        assert(a@ + b@.take(i + 1) =~= (a@ + b@.take(i as int)).push(b@[i as int]));
    }
    assert(b@.take(b@.len() as int) =~= b@);
    r
}

// ---------- random numbers ----------
/// The state from which random numbers start: never 0.
pub fn seed_rng(nanos: u64) -> (s: u64)
    ensures
        s == (if nanos == 0 {
            1
        } else {
            nanos
        }),
{
    if nanos == 0 {
        1
    } else {
        nanos
    }
}

/// One step of the 64-bit xorshift generator.
pub open spec fn xorshift(x: u64) -> u64 {
    let a = x ^ (x << 13u64);
    let b = a ^ (a >> 7u64);
    b ^ (b << 17u64)
}

/// The next random number, which is also the next state.
pub fn next_rand(state: u64) -> (r: u64)
    ensures
        r == xorshift(state),
{
    let a: u64 = state ^ (state << 13u64);
    let b: u64 = a ^ (a >> 7u64);
    b ^ (b << 17u64)
}

/// The number in `min..max` that the random number `r` gives, or `None` for an empty
/// range.
pub open spec fn rand_in(min: i64, max: i64, r: u64) -> Option<int> {
    if max <= min {
        None
    } else {
        Some(min + (r as int) % (max - min))
    }
}

/// Maps the random number `r` to `min..max`; `None` where the range is empty.
pub fn tie_rand_range(min: i64, max: i64, r: u64) -> (o: Option<i64>)
    ensures
        match o {
            Some(v) => rand_in(min, max, r) == Some(v as int),
            None => rand_in(min, max, r) is None,
        },
{
    if max <= min {
        return None;
    }
    let span: i128 = max as i128 - min as i128;
    let k: i128 = (r as i128) % span;
    proof {
        assert(0 <= k < span) by (nonlinear_arith)
            requires
                span > 0,
                k == (r as int) % (span as int),
        ;
    }
    Some((min as i128 + k) as i64)
}

// ---------- laws ----------
/// A random number drawn from a range lies in it.
pub proof fn law_rand_stays_in_range(min: i64, max: i64, r: u64)
    requires
        min < max,
    ensures
        rand_in(min, max, r) is Some,
        min <= rand_in(min, max, r)->0 < max,
{
    let span = max - min;
    assert(0 <= (r as int) % span < span) by (nonlinear_arith)
        requires
            span > 0,
    ;
}

/// The generator never reaches the state 0 from another state.
pub proof fn law_rand_state_stays_nonzero(x: u64)
    requires
        x != 0,
    ensures
        xorshift(x) != 0,
{
    let a = x ^ (x << 13u64);
    let b = a ^ (a >> 7u64);
    assert(x != 0 ==> x ^ (x << 13u64) != 0) by (bit_vector);
    assert(a != 0 ==> a ^ (a >> 7u64) != 0) by (bit_vector);
    assert(b != 0 ==> b ^ (b << 17u64) != 0) by (bit_vector);
}

/// A bit reads back as it was written.
pub proof fn law_bit_reads_back(v: Seq<i64>, pos: i64, bit: i64)
    requires
        bit_in(v.len(), pos),
    ensures
        bit_at(bit_put(v, pos, bit), pos) == (if bit != 0 {
            1i64
        } else {
            0i64
        }),
{
    let w = v[pos as int / 8];
    let k = (pos % 8) as u64;
    assert(0 <= k < 8);
    assert(0 <= k < 8 ==> ((w | (1i64 << k)) >> k) & 1i64 == 1i64) by (bit_vector);
    assert(0 <= k < 8 ==> ((w & !(1i64 << k)) >> k) & 1i64 == 0i64) by (bit_vector);
}

/// Writing one bit leaves every other bit as it was.
pub proof fn law_bit_write_touches_one_bit(v: Seq<i64>, pos: i64, bit: i64, other: i64)
    requires
        other != pos,
    ensures
        bit_at(bit_put(v, pos, bit), other) == bit_at(v, other),
{
    if bit_in(v.len(), pos) && bit_in(v.len(), other) && pos / 8 == other / 8 {
        let w = v[pos as int / 8];
        let k = (pos % 8) as u64;
        let j = (other % 8) as u64;
        assert(0 <= k < 8 && 0 <= j < 8 && k != j);
        assert(0 <= k < 8 && 0 <= j < 8 && k != j ==> ((w | (1i64 << k)) >> j) & 1i64 == (w >> j)
            & 1i64) by (bit_vector);
        assert(0 <= k < 8 && 0 <= j < 8 && k != j ==> ((w & !(1i64 << k)) >> j) & 1i64 == (w >> j)
            & 1i64) by (bit_vector);
    }
}

/// What is written at a position of a table is read there, nothing else changes, and a
/// write outside the table changes nothing.
pub proof fn law_table_reads_back(s: Seq<i64>, i: i64, x: i64, j: i64)
    ensures
        slot_at(slot_put(s, i, x), i) == (if 0 <= i < s.len() {
            Some(x)
        } else {
            None
        }),
        j != i ==> slot_at(slot_put(s, i, x), j) == slot_at(s, j),
        slot_put(s, i, x).len() == s.len(),
{
}

/// What is appended to a table is read at its end, and what was there stays.
pub proof fn law_table_push_reads_back(s: Seq<i64>, x: i64, j: i64)
    requires
        s.len() < i64::MAX,
    ensures
        slot_at(s.push(x), s.len() as i64) == Some(x),
        0 <= j < s.len() ==> slot_at(s.push(x), j) == slot_at(s, j),
{
}

/// A table has room for what it holds, and appending keeps it so.
pub proof fn law_room_suffices(len: nat, cap: nat)
    requires
        len <= cap,
    ensures
        len + 1 <= grown_cap(len, cap),
        cap <= grown_cap(len, cap),
{
}

/// Bytes read from a file into a table are the bytes that writing the table gives.
pub proof fn law_bytes_survive_the_table(v: Seq<u8>)
    ensures
        v.map_values(|x: u8| x as i64).map_values(|x: i64| to_byte(x)) == v,
{
    assert(v.map_values(|x: u8| x as i64).map_values(|x: i64| to_byte(x)) =~= v);
}

} // verus!

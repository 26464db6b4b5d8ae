//! The entity handle and its two default external forms: the packed
//! integer and the `"<slot>v<generation>"` text.

use vstd::prelude::*;
use crate::text::{
    append_decimal, decimal, is_digit, lemma_ascii_byte, lemma_decimal, lemma_parse_decimal, lemma_parse_u32_stray,
    parse_u32, parse_u32_ascii,
};

verus! {

/// What a handle denotes: a slot index and a non-zero generation.
pub struct EntityView {
    pub slot: u32,
    pub generation: u32,
}

/// An entity handle: a slot index paired with the slot's generation,
/// which is never zero.
#[derive(Clone, Copy, Debug, PartialEq, Eq, Hash)]
pub struct Entity {
    id: u32,
    generation: u32,
}

impl View for Entity {
    type V = EntityView;

    closed spec fn view(&self) -> EntityView {
        EntityView { slot: self.id, generation: self.generation }
    }
}

/// The view of an optional handle.
pub open spec fn view_opt(r: Option<Entity>) -> Option<EntityView> {
    match r {
        Some(e) => Some(e@),
        None => None,
    }
}

/// The packed form: generation in the high 32 bits, slot in the low 32 bits.
pub open spec fn pack_bits(slot: u32, generation: u32) -> u64 {
    (generation as u64) << 32u64 | slot as u64
}

/// The handle that a packed value denotes, if its generation is not zero.
pub open spec fn unpack_bits(bits: u64) -> Option<EntityView> {
    if bits >> 32u64 == 0 {
        None
    } else {
        Some(EntityView { slot: bits as u32, generation: (bits >> 32u64) as u32 })
    }
}

/// The index of the first `'v'` in `s` at or after `i`, or `s.len()`.
pub open spec fn v_index_from(s: Seq<char>, i: int) -> int
    decreases s.len() - i,
{
    if i >= s.len() {
        s.len() as int
    } else if s[i] == 'v' {
        i
    } else {
        v_index_from(s, i + 1)
    }
}

/// The index of the first `'v'` in `s`, or `s.len()` where there is none.
pub open spec fn first_v(s: Seq<char>) -> int {
    v_index_from(s, 0)
}

/// The text form of a handle: decimal slot, `'v'`, decimal generation.
pub open spec fn entity_text(v: EntityView) -> Seq<char> {
    decimal(v.slot as nat) + seq!['v'] + decimal(v.generation as nat)
}

/// The handle that a text denotes: it is split at its first `'v'`, both
/// sides must be `u32`s, and the generation must not be zero.
pub open spec fn parse_text(s: Seq<char>) -> Option<EntityView> {
    let k = first_v(s);
    if k >= s.len() {
        None
    } else {
        match (parse_u32(s.subrange(0, k)), parse_u32(s.subrange(k + 1, s.len() as int))) {
            (Some(slot), Some(generation)) => if generation == 0 {
                None
            } else {
                Some(EntityView { slot, generation })
            },
            _ => None,
        }
    }
}

proof fn lemma_v_index_from(s: Seq<char>, i: int)
    requires
        0 <= i <= s.len(),
    ensures
        i <= v_index_from(s, i) <= s.len(),
        v_index_from(s, i) < s.len() ==> s[v_index_from(s, i)] == 'v',
        forall|j: int| i <= j < v_index_from(s, i) ==> s[j] != 'v',
    decreases s.len() - i,
{
    if i < s.len() && s[i] != 'v' {
        lemma_v_index_from(s, i + 1);
    }
}

proof fn lemma_v_index_at(s: Seq<char>, i: int, k: int)
    requires
        0 <= i <= k < s.len(),
        s[k] == 'v',
        forall|j: int| i <= j < k ==> s[j] != 'v',
    ensures
        v_index_from(s, i) == k,
    decreases k - i,
{
    if i < k {
        lemma_v_index_at(s, i + 1, k);
    }
}

/// A text with a character outside ASCII denotes no handle.
proof fn lemma_non_ascii_rejected(s: Seq<char>, i: int)
    requires
        0 <= i < s.len(),
        !('\0' <= s[i] <= '\u{7f}'),
    ensures
        parse_text(s) is None,
{
    let k = first_v(s);
    lemma_v_index_from(s, 0);
    if k < s.len() {
        if i < k {
            lemma_parse_u32_stray(s.subrange(0, k), i);
        } else {
            assert(s.subrange(k + 1, s.len() as int)[i - k - 1] == s[i]);
            lemma_parse_u32_stray(s.subrange(k + 1, s.len() as int), i - k - 1);
        }
    }
}


impl Entity {
    #[verifier::type_invariant]
    closed spec fn generation_nonzero(self) -> bool {
        self.generation != 0
    }

    /// The slot index.
    pub fn id(self) -> (r: u32)
        ensures
            r == self@.slot,
    {
        self.id
    }

    /// The generation, which is never zero.
    pub fn generation(self) -> (r: u32)
        ensures
            r == self@.generation,
            r != 0,
    {
        proof {
            use_type_invariant(&self);
        }
        self.generation
    }

    /// The packed form of the handle.
    pub fn to_bits(self) -> (r: u64)
        ensures
            r == pack_bits(self@.slot, self@.generation),
            r >> 32u64 != 0,
    {
        proof {
            use_type_invariant(&self);
        }
        let g = self.generation;
        let s = self.id;
        assert(g != 0 ==> ((g as u64) << 32u64 | s as u64) >> 32u64 != 0) by (bit_vector);
        (self.generation as u64) << 32u64 | self.id as u64
    }

    /// The handle that `bits` denotes; `None` where its high 32 bits are zero.
    pub fn from_bits(bits: u64) -> (r: Option<Entity>)
        ensures
            view_opt(r) == unpack_bits(bits),
            bits >> 32u64 == 0 <==> r is None,
    {
        let generation = (bits >> 32u64) as u32;
        assert((bits >> 32u64) as u32 == 0 <==> bits >> 32u64 == 0) by (bit_vector);
        if generation == 0 {
            None
        } else {
            Some(Entity { id: bits as u32, generation })
        }
    }

    /// The handle with slot `id` and generation `generation`; `None` where
    /// the generation is zero.
    pub fn from_id_generation(id: u32, generation: u32) -> (r: Option<Entity>)
        ensures
            view_opt(r) == unpack_bits(pack_bits(id, generation)),
            r is Some <==> generation != 0,
            r matches Some(e) ==> e@ == (EntityView { slot: id, generation }),
    {
        proof {
            lemma_pack_unpack(id, generation);
        }
        let bits = (generation as u64) << 32u64 | id as u64;
        Self::from_bits(bits)
    }

    /// The text form `"<slot>v<generation>"`.
    pub fn to_text(self) -> (r: String)
        ensures
            r@ == entity_text(self@),
    {
        let mut t = String::new();
        append_decimal(&mut t, self.id);
        t.append("v");
        proof {
            reveal_strlit("v");
        }
        append_decimal(&mut t, self.generation);
        assert(t@ =~= entity_text(self@));
        t
    }

    /// The handle that a text denotes: see [`parse_text`].
    pub fn parse(s: &str) -> (r: Option<Entity>)
        ensures
            view_opt(r) == parse_text(s@),
    {
        if !s.is_ascii() {
            proof {
                let i = choose|i: int| 0 <= i < s@.len() && !('\0' <= #[trigger] s@[i] <= '\u{7f}');
                lemma_non_ascii_rejected(s@, i);
            }
            return None;
        }
        let b = s.as_bytes();
        proof {
            broadcast use vstd::string::is_ascii_spec_bytes;
            assert forall|i: int| 0 <= i < s@.len() implies b@[i] as int == #[trigger] s@[i] as int by {
                lemma_ascii_byte(s@[i]);
            }
        }
        let n = b.len();
        let mut k: usize = 0;
        proof {
            lemma_v_index_from(s@, 0);
        }
        while k < n && b[k] != 118u8
            invariant
                n == b@.len() == s@.len(),
                forall|i: int| 0 <= i < s@.len() ==> b@[i] as int == #[trigger] s@[i] as int,
                k <= first_v(s@),
                first_v(s@) <= n,
                forall|j: int| 0 <= j < first_v(s@) ==> s@[j] != 'v',
                first_v(s@) < n ==> s@[first_v(s@)] == 'v',
            decreases n - k,
        {
            k = k + 1;
        }
        if k == n {
            return None;
        }
        match parse_u32_ascii(b, 0, k, Ghost(s@)) {
            None => None,
            Some(id) => match parse_u32_ascii(b, k + 1, n, Ghost(s@)) {
                None => None,
                Some(generation) => Self::from_id_generation(id, generation),
            },
        }
    }
}

/// For every handle, parsing its text form gives it back.
pub proof fn lemma_text_round_trip(slot: u32, generation: u32)
    requires
        generation != 0,
    ensures
        parse_text(entity_text(EntityView { slot, generation })) == Some(
            EntityView { slot, generation },
        ),
{
    let a = decimal(slot as nat);
    let g = decimal(generation as nat);
    let s = entity_text(EntityView { slot, generation });
    lemma_decimal(slot as nat);
    lemma_parse_decimal(slot);
    lemma_parse_decimal(generation);
    assert forall|j: int| 0 <= j < a.len() implies s[j] != 'v' by {
        assert(s[j] == a[j]);
        assert(is_digit(a[j]));
    }
    assert(s[a.len() as int] == 'v');
    lemma_v_index_at(s, 0, a.len() as int);
    assert(s.subrange(0, a.len() as int) =~= a);
    assert(s.subrange(a.len() as int + 1, s.len() as int) =~= g);
}

/// Two handles with the same slot and generation are the same handle.
pub proof fn lemma_view_injective(a: Entity, b: Entity)
    ensures
        a@ == b@ <==> a == b,
{
}

/// Unpacking a packed slot and generation gives them back, unless the
/// generation is zero; then it fails.
proof fn lemma_pack_unpack(slot: u32, generation: u32)
    ensures
        generation != 0 ==> unpack_bits(pack_bits(slot, generation)) == Some(
            EntityView { slot, generation },
        ),
        generation == 0 ==> unpack_bits(pack_bits(slot, generation)) is None,
{
    assert(((generation as u64) << 32u64 | slot as u64) >> 32u64 == generation as u64)
        by (bit_vector);
    assert(((generation as u64) << 32u64 | slot as u64) as u32 == slot) by (bit_vector);
}

/// For every slot and every non-zero generation, unpacking the packed
/// form gives back the same handle.
pub proof fn lemma_bits_round_trip(slot: u32, generation: u32)
    requires
        generation != 0,
    ensures
        unpack_bits(pack_bits(slot, generation)) == Some(EntityView { slot, generation }),
{
    lemma_pack_unpack(slot, generation);
}

/// Every value whose high 32 bits are zero, zero among them, denotes no
/// handle.
pub proof fn lemma_zero_generation_rejected(bits: u64)
    requires
        bits >> 32u64 == 0,
    ensures
        unpack_bits(bits) is None,
{
}

} // verus!

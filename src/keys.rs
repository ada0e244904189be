use vstd::prelude::*;

verus! {

/// A 32-byte account identity (a public key or a derived address).
#[derive(Clone, Copy, Debug)]
pub struct Pubkey {
    pub bytes: [u8; 32],
}

impl View for Pubkey {
    type V = Seq<u8>;

    open spec fn view(&self) -> Seq<u8> {
        self.bytes@
    }
}

impl PartialEq for Pubkey {
    fn eq(&self, other: &Pubkey) -> bool {
        let mut i: usize = 0;
        while i < 32
            invariant
                0 <= i <= 32,
                self.bytes@.len() == 32,
                other.bytes@.len() == 32,
                forall|j: int| 0 <= j < i ==> self.bytes@[j] == other.bytes@[j],
            decreases 32 - i,
        {
            if self.bytes[i] != other.bytes[i] {
                return false;
            }
            i = i + 1;
        }
        assert(self.bytes@ =~= other.bytes@);
        true
    }
}

impl vstd::std_specs::cmp::PartialEqSpecImpl for Pubkey {
    open spec fn obeys_eq_spec() -> bool {
        true
    }

    open spec fn eq_spec(&self, other: &Pubkey) -> bool {
        self@ == other@
    }
}

impl Eq for Pubkey {
}

impl Pubkey {
    /// The identity made of the given bytes.
    pub fn new(bytes: [u8; 32]) -> (r: Pubkey)
        ensures
            r.bytes == bytes,
            r@ == bytes@,
    {
        Pubkey { bytes }
    }
}

/// True when `key` occurs in `keys`.
pub open spec fn holds_key(keys: Seq<Pubkey>, key: Pubkey) -> bool {
    exists|i: int| 0 <= i < keys.len() && #[trigger] keys[i]@ == key@
}

/// True when no identity occurs twice in `keys`.
pub open spec fn distinct_keys(keys: Seq<Pubkey>) -> bool {
    forall|i: int, j: int| 0 <= i < j < keys.len() ==> #[trigger] keys[i]@ != #[trigger] keys[j]@
}

/// The first position of `key` in `keys`, if any.
pub fn find_key(keys: &Vec<Pubkey>, key: &Pubkey) -> (r: Option<usize>)
    ensures
        match r {
            Some(i) => {
                &&& i < keys@.len()
                &&& keys@[i as int]@ == key@
                &&& forall|j: int| 0 <= j < i ==> #[trigger] keys@[j]@ != key@
            },
            None => !holds_key(keys@, *key),
        },
{
    let mut i: usize = 0;
    while i < keys.len()
        invariant
            0 <= i <= keys@.len(),
            forall|j: int| 0 <= j < i ==> #[trigger] keys@[j]@ != key@,
        decreases keys@.len() - i,
    {
        if keys[i] == *key {
            return Some(i);
        }
        i = i + 1;
    }
    None
}

/// Whether `key` occurs in `keys`.
pub fn contains_key(keys: &Vec<Pubkey>, key: &Pubkey) -> (r: bool)
    ensures
        r == holds_key(keys@, *key),
{
    match find_key(keys, key) {
        Some(_) => true,
        None => false,
    }
}

/// Identities with the same bytes are the same identity.
pub proof fn lemma_key_view_injective(a: Pubkey, b: Pubkey)
    requires
        a@ == b@,
    ensures
        a == b,
{
    assert(a.bytes =~= b.bytes);
}

/// The identity made of the 32 bytes of `data` from `start` on.
pub fn key_at(data: &[u8], start: usize) -> (r: Pubkey)
    requires
        start + 32 <= data@.len(),
    ensures
        r@ == data@.subrange(start as int, start + 32),
{
    let n = data.len();
    let mut bytes = [0u8; 32];
    let mut i: usize = 0;
    while i < 32
        invariant
            0 <= i <= 32,
            n == data@.len(),
            start + 32 <= data@.len(),
            bytes@.len() == 32,
            forall|j: int| 0 <= j < i ==> bytes@[j] == data@[start + j],
        decreases 32 - i,
    {
        bytes[i] = data[start + i];
        i = i + 1;
    }
    assert(bytes@ =~= data@.subrange(start as int, start + 32));
    Pubkey { bytes }
}

} // verus!

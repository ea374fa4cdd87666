//! Bookkeeping for provisioned companion components: their compiled-in
//! verifying keys, their flash record, and the mapping from component id
//! to bus address.

use vstd::prelude::*;

verus! {

/// Mask selecting the bus-address byte of a component id.
pub const COMPONENT_ADDR_MASK: u32 = 0x000000FF;

/// How many components can be provisioned at once.
pub const MAX_PROVISIONED_COMPONENTS: usize = 2;

/// Converts a component id to its corresponding bus address: the low byte
/// of the id.
pub fn component_id_to_i2c_addr(component_id: u32) -> (r: u8)
    ensures
        r == component_id & COMPONENT_ADDR_MASK,
{
    let masked = component_id & COMPONENT_ADDR_MASK;
    proof {
        assert(component_id & COMPONENT_ADDR_MASK < 256) by (bit_vector);
    }
    masked as u8
}

/// A compiled-in verifying key for one component build.
#[derive(Debug, Clone, Copy)]
pub struct ComponentKey {
    /// The build this key belongs to.
    pub build_id: u32,
    /// The build's verifying key.
    pub pubkey: [u8; 32],
}

/// The first index in `keys` holding the given build id, if any.
pub open spec fn spec_key_index(keys: Seq<ComponentKey>, build_id: u32, i: int) -> Option<int>
    decreases keys.len() - i,
{
    if i < 0 || i >= keys.len() {
        None
    } else if keys[i].build_id == build_id {
        Some(i)
    } else {
        spec_key_index(keys, build_id, i + 1)
    }
}

/// Returns the key index corresponding to the given build id if it exists.
pub fn build_id_to_key_index(keys: &Vec<ComponentKey>, build_id: u32) -> (r: Option<usize>)
    ensures
        match r {
            Some(i) => Some(i as int) == spec_key_index(keys@, build_id, 0),
            None => spec_key_index(keys@, build_id, 0) is None,
        },
{
    let mut i: usize = 0;
    while i < keys.len()
        invariant
            0 <= i <= keys@.len(),
            spec_key_index(keys@, build_id, 0) == spec_key_index(keys@, build_id, i as int),
        decreases keys@.len() - i,
    {
        if keys[i].build_id == build_id {
            return Some(i);
        }
        i += 1;
    }
    None
}

/// Returns the verifying key for the given build id if one is compiled in.
pub fn get_key_for_build_id(keys: &Vec<ComponentKey>, build_id: u32) -> (r: Option<[u8; 32]>)
    ensures
        r is Some <==> spec_key_index(keys@, build_id, 0) is Some,
        r matches Some(key) ==> Some(key) == match spec_key_index(keys@, build_id, 0) {
            Some(i) => Some(keys@[i].pubkey),
            None => None,
        },
{
    let i = match build_id_to_key_index(keys, build_id) {
        Some(i) => i,
        None => {
            return None;
        },
    };
    proof {
        lemma_key_index_found(keys@, build_id, 0);
    }
    Some(keys[i].pubkey)
}

/// A found key index is in range and names the build.
proof fn lemma_key_index_found(keys: Seq<ComponentKey>, build_id: u32, i: int)
    requires
        spec_key_index(keys, build_id, i) is Some,
    ensures
        ({
            let j = spec_key_index(keys, build_id, i)->Some_0;
            &&& i <= j < keys.len()
            &&& keys[j].build_id == build_id
        }),
    decreases keys.len() - i,
{
    if 0 <= i < keys.len() && keys[i].build_id != build_id {
        lemma_key_index_found(keys, build_id, i + 1);
    }
}

/// One provisioned component: its id and the index of its key.
#[derive(Debug, Clone, Copy, PartialEq, Eq, Structural)]
pub struct ProvisionedComponent {
    pub component_id: u32,
    pub key_index: usize,
}

/// Datatype for information stored in flash
#[derive(Debug, Clone, Copy)]
pub struct FlashData {
    /// How many of the component slots are in use.
    pub components_len: usize,
    /// The provisioned components, first `components_len` in use.
    pub components: [ProvisionedComponent; 2],
    /// Magic marking the record as initialized.
    pub flash_magic: u32,
}

impl FlashData {
    /// Only the declared number of slots is read.
    pub open spec fn wf(self) -> bool {
        self.components_len <= MAX_PROVISIONED_COMPONENTS
    }

    /// Returns the provisioned component with the given id, if any.
    pub fn get_provisioned_component(&self, component_id: u32) -> (r: Option<
        ProvisionedComponent,
    >)
        requires
            self.wf(),
        ensures
            match r {
                Some(c) => {
                    &&& c.component_id == component_id
                    &&& exists|i: int|
                        0 <= i < self.components_len && self.components@[i] == c
                },
                None => forall|i: int|
                    0 <= i < self.components_len ==> (
                    #[trigger] self.components@[i]).component_id != component_id,
            },
    {
        let mut i: usize = 0;
        while i < self.components_len
            invariant
                self.wf(),
                0 <= i <= self.components_len,
                forall|k: int|
                    0 <= k < i ==> (#[trigger] self.components@[k]).component_id != component_id,
            decreases self.components_len - i,
        {
            if self.components[i].component_id == component_id {
                return Some(self.components[i]);
            }
            i += 1;
        }
        None
    }

    /// Returns the provisioned component answering at the given bus
    /// address, if any.
    pub fn get_component_for_i2c_addr(&self, i2c_addr: u8) -> (r: Option<ProvisionedComponent>)
        requires
            self.wf(),
        ensures
            match r {
                Some(c) => {
                    &&& c.component_id & COMPONENT_ADDR_MASK == i2c_addr
                    &&& exists|i: int|
                        0 <= i < self.components_len && self.components@[i] == c
                },
                None => forall|i: int|
                    0 <= i < self.components_len ==> (
                    #[trigger] self.components@[i]).component_id & COMPONENT_ADDR_MASK
                        != i2c_addr,
            },
    {
        let mut i: usize = 0;
        while i < self.components_len
            invariant
                self.wf(),
                0 <= i <= self.components_len,
                forall|k: int|
                    0 <= k < i ==> (#[trigger] self.components@[k]).component_id
                        & COMPONENT_ADDR_MASK != i2c_addr,
            decreases self.components_len - i,
        {
            if component_id_to_i2c_addr(self.components[i].component_id) == i2c_addr {
                return Some(self.components[i]);
            }
            i += 1;
        }
        None
    }
}

} // verus!

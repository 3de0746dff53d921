//! The per-connection table of negotiated packet-format revisions, one entry
//! for each possible tag byte.
use std::collections::HashMap;
use vstd::prelude::*;

verus! {

broadcast use vstd::std_specs::hash::group_hash_axioms;

/// The table `t` after every entry of `m` is written into it.
pub open spec fn merged(t: Seq<i32>, m: Map<u8, i32>) -> Seq<i32> {
    Seq::new(t.len(), |i: int| if m.contains_key(i as u8) { m[i as u8] } else { t[i] })
}

/// 256 revisions, indexed by tag byte. Every entry starts at 0.
#[derive(Clone)]
pub struct PacketVersions {
    versions: Vec<i32>,
}

impl View for PacketVersions {
    type V = Seq<i32>;

    closed spec fn view(&self) -> Seq<i32> {
        self.versions@
    }
}

impl PacketVersions {
    /// The table has an entry for every tag byte.
    pub open spec fn wf(&self) -> bool {
        self@.len() == 256
    }

    pub fn new() -> (r: PacketVersions)
        ensures
            r@ == Seq::new(256, |i: int| 0i32),
            r.wf(),
    {
        let r = PacketVersions { versions: vec![0i32; 256] };
        assert(r@ =~= Seq::new(256, |i: int| 0i32));
        r
    }

    /// The revision negotiated for the packet kind `packet_no`.
    pub fn get_packet_version(&self, packet_no: u8) -> (r: i32)
        requires
            self.wf(),
        ensures
            r == self@[packet_no as int],
    {
        self.versions[packet_no as usize]
    }

    /// Records `value` as the revision of the packet kind `packet`.
    pub fn set_packet_version(&mut self, packet: u8, value: i32)
        requires
            old(self).wf(),
        ensures
            final(self)@ == old(self)@.update(packet as int, value),
    {
        self.versions.set(packet as usize, value);
    }

    /// Writes every entry of `data` into the table; the other entries stay.
    pub fn update(&mut self, data: &HashMap<u8, i32>)
        requires
            old(self).wf(),
        ensures
            final(self)@ == merged(old(self)@, data@),
    {
        let mut k: usize = 0;
        while k < 256
            invariant
                k <= 256,
                old(self)@.len() == 256,
                self@.len() == 256,
                forall|i: int|
                    0 <= i < 256 ==> #[trigger] self@[i] == if i < k && data@.contains_key(
                        i as u8,
                    ) {
                        data@[i as u8]
                    } else {
                        old(self)@[i]
                    },
            decreases 256 - k,
        {
            let key = k as u8;
            match data.get(&key) {
                Some(v) => {
                    self.set_packet_version(key, *v);
                },
                None => {},
            }
            k = k + 1;
        }
        assert(self@ =~= merged(old(self)@, data@));
    }
}

} // verus!

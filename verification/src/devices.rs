//! Device descriptors and the assembly of enumeration results: the list shown
//! to callers always starts with the synthetic default entry, followed by
//! every enumerated device that has a usable (non-empty) id, in order.

use vstd::prelude::*;

verus! {

/// A device as handed to the host: a stable id and a human-readable name.
#[derive(Debug, Clone)]
pub struct AudioDeviceInfo {
    pub id: String,
    pub name: String,
}

/// A device as carried through configuration, with its default-device flag.
#[derive(Debug, Clone)]
pub struct AudioDevice {
    pub id: String,
    pub name: String,
    pub is_default: bool,
}

/// The pairs kept from a platform enumeration: those with a non-empty id,
/// in enumeration order.
pub open spec fn kept_pairs(s: Seq<(String, String)>) -> Seq<(String, String)>
    decreases s.len()
{
    if s.len() == 0 {
        Seq::empty()
    } else {
        let pre = kept_pairs(s.drop_last());
        if s.last().0@.len() > 0 {
            pre.push(s.last())
        } else {
            pre
        }
    }
}

/// Assemble the device list shown to callers from a platform enumeration's
/// `(id, name)` pairs: the synthetic default entry first, then every pair
/// with a non-empty id, in enumeration order.
#[verifier::loop_isolation(false)]
pub fn device_list(default_id: String, default_name: String, pairs: &Vec<(String, String)>) -> (r:
    Vec<AudioDeviceInfo>)
    ensures
        r@.len() == 1 + kept_pairs(pairs@).len(),
        r@[0].id == default_id && r@[0].name == default_name,
        forall|j: int| 1 <= j < r@.len()
            ==> #[trigger] r@[j].id == kept_pairs(pairs@)[j - 1].0
                && r@[j].name == kept_pairs(pairs@)[j - 1].1,
{
    let mut r: Vec<AudioDeviceInfo> = Vec::new();
    r.push(AudioDeviceInfo { id: default_id, name: default_name });
    let mut i: usize = 0;
    while i < pairs.len()
        invariant
            0 <= i <= pairs@.len(),
            r@.len() == 1 + kept_pairs(pairs@.subrange(0, i as int)).len(),
            r@[0].id == default_id && r@[0].name == default_name,
            forall|j: int| 1 <= j < r@.len()
                ==> #[trigger] r@[j].id == kept_pairs(pairs@.subrange(0, i as int))[j - 1].0
                    && r@[j].name == kept_pairs(pairs@.subrange(0, i as int))[j - 1].1,
        decreases pairs@.len() - i,
    {
        let ghost pre = pairs@.subrange(0, i as int);
        proof {
            assert(pairs@.subrange(0, i as int + 1).drop_last() =~~= pre);
            assert(pairs@.subrange(0, i as int + 1).last() == pairs@[i as int]);
        }
        let id = pairs[i].0.clone();
        let name = pairs[i].1.clone();
        if !id.as_str().is_empty() {
            r.push(AudioDeviceInfo { id, name });
        }
        i = i + 1;
    }
    proof {
        assert(pairs@.subrange(0, pairs@.len() as int) =~~= pairs@);
    }
    r
}

} // verus!

use vstd::prelude::*;
use crate::strmap::{PropertyMap, assoc_lookup};

verus! {

/// Process-wide spoof state: written exactly once during specialization,
/// read afterwards by the interception layer and the post-specialization
/// lifecycle callback.
pub struct SpoofState {
    /// The property map the interception layer serves, present only while
    /// the `Full` strategy is active.
    pub active_property_map: Option<PropertyMap>,
    /// Whether the `Full` strategy is active, so the module must stay
    /// resident.
    pub full_mode_active: bool,
}

impl SpoofState {
    /// Well-formed: an active map has unique keys, and a map is only held
    /// while full mode is active.
    pub open spec fn wf(self) -> bool {
        match self.active_property_map {
            Some(m) => m.wf() && self.full_mode_active,
            None => true,
        }
    }

    /// No strategy recorded yet.
    pub open spec fn is_inactive(self) -> bool {
        self.active_property_map is None && !self.full_mode_active
    }

    /// What an intercepted lookup of `key` answers: the replacement value
    /// where full mode is active and the key is mapped, else nothing, in
    /// which case the lookup passes through to the real property store.
    pub open spec fn spec_intercept(self, key: Seq<char>) -> Option<Seq<char>> {
        if self.full_mode_active {
            match self.active_property_map {
                Some(m) => assoc_lookup(m.kv(), key),
                None => None,
            }
        } else {
            None
        }
    }

    /// The state before any strategy ran.
    pub fn new() -> (r: Self)
        ensures
            r.wf(),
            r.is_inactive(),
    {
        SpoofState { active_property_map: None, full_mode_active: false }
    }

    /// Records that a strategy with no runtime presence ran (`Lite`,
    /// `Resetprop`, or none at all).
    pub fn record_inactive(&mut self)
        ensures
            final(self).wf(),
            final(self).is_inactive(),
    {
        self.active_property_map = None;
        self.full_mode_active = false;
    }

    /// Records that the `Full` strategy is active with `props` as the map
    /// the interception layer serves.
    pub fn record_full(&mut self, props: PropertyMap)
        requires
            props.wf(),
        ensures
            final(self).wf(),
            final(self).full_mode_active,
            final(self).active_property_map matches Some(m) && m == props,
            forall|q: Seq<char>| #[trigger] final(self).spec_intercept(q) == assoc_lookup(
                props.kv(),
                q,
            ),
    {
        self.active_property_map = Some(props);
        self.full_mode_active = true;
    }

    /// An intercepted native property lookup: a key present in the active
    /// map answers the mapped value; every other key passes through
    /// unmodified (`None`).
    pub fn intercept_property_read<'a>(&'a self, key: &str) -> (r: Option<&'a String>)
        ensures
            match r {
                Some(v) => self.spec_intercept(key@) == Some(v@),
                None => self.spec_intercept(key@) is None,
            },
    {
        if !self.full_mode_active {
            return None;
        }
        match &self.active_property_map {
            Some(m) => m.get(key),
            None => None,
        }
    }

    /// The post-specialization decision: every process not in full mode
    /// asks the host to unload the module.
    pub fn should_unload_after_specialize(&self) -> (r: bool)
        ensures
            r == !self.full_mode_active,
    {
        !self.full_mode_active
    }
}

} // verus!

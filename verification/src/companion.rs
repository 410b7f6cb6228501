use vstd::prelude::*;
use crate::strmap::{AssocVec, PropertyMap, assoc_lookup, assoc_has, assoc_distinct,
    lemma_assoc_lookup_push, lemma_assoc_lookup_index};

verus! {

/// The value a property had before it was overwritten: its old value, or
/// nothing where the property was absent.
pub struct PriorValue {
    pub value: Option<String>,
}

impl View for PriorValue {
    type V = Option<Seq<char>>;

    open spec fn view(&self) -> Option<Seq<char>> {
        match self.value {
            Some(s) => Some(s@),
            None => None,
        }
    }
}

/// The restoration record for one identity: the prior value of every
/// property the companion overwrote for it.
pub struct RestoreRecord {
    pub prior: AssocVec<PriorValue>,
}

impl View for RestoreRecord {
    type V = Seq<(Seq<char>, Option<Seq<char>>)>;

    open spec fn view(&self) -> Seq<(Seq<char>, Option<Seq<char>>)> {
        self.prior.kv()
    }
}

/// The keyed store of restoration records, owned exclusively by the
/// privileged companion process.
pub type RecordTable = AssocVec<RestoreRecord>;

/// Identities unique, and every stored record has unique keys.
pub open spec fn records_wf(records: RecordTable) -> bool {
    &&& records.wf()
    &&& forall|id: Seq<char>| (#[trigger] assoc_lookup(records.kv(), id)) matches Some(rec)
        ==> assoc_distinct(rec)
}

/// The store after a restoration record was applied: every key the record
/// names is back at its prior value (or absent again), every other key is
/// untouched.
pub open spec fn restore_post(
    s0: Seq<(Seq<char>, Seq<char>)>,
    s1: Seq<(Seq<char>, Seq<char>)>,
    rec: Seq<(Seq<char>, Option<Seq<char>>)>,
) -> bool {
    forall|q: Seq<char>| #[trigger] assoc_lookup(s1, q) == (match assoc_lookup(rec, q) {
        Some(prior) => prior,
        None => assoc_lookup(s0, q),
    })
}

/// The store after a spoof: every key of the property map carries its
/// replacement value, every other key is untouched.
pub open spec fn spoof_store_post(
    s0: Seq<(Seq<char>, Seq<char>)>,
    s1: Seq<(Seq<char>, Seq<char>)>,
    p: Seq<(Seq<char>, Seq<char>)>,
) -> bool {
    forall|q: Seq<char>| #[trigger] assoc_lookup(s1, q) == (if assoc_has(p, q) {
        assoc_lookup(p, q)
    } else {
        assoc_lookup(s0, q)
    })
}

/// A restoration record captured by a spoof: it names exactly the keys of
/// the property map and stores, for each, what the store held before.
pub open spec fn spoof_record_ok(
    s0: Seq<(Seq<char>, Seq<char>)>,
    rec: Seq<(Seq<char>, Option<Seq<char>>)>,
    p: Seq<(Seq<char>, Seq<char>)>,
) -> bool {
    forall|q: Seq<char>| #[trigger] assoc_lookup(rec, q) == (if assoc_has(p, q) {
        Some(assoc_lookup(s0, q))
    } else {
        None::<Option<Seq<char>>>
    })
}

/// Idempotent resetprop cycle: spoofing a property store and then applying
/// the restoration record that the spoof captured returns the store to
/// exactly its original contents, for any property map and any identity.
pub proof fn lemma_spoof_then_restore_roundtrip(
    s0: Seq<(Seq<char>, Seq<char>)>,
    s1: Seq<(Seq<char>, Seq<char>)>,
    s2: Seq<(Seq<char>, Seq<char>)>,
    rec: Seq<(Seq<char>, Option<Seq<char>>)>,
    p: Seq<(Seq<char>, Seq<char>)>,
)
    requires
        spoof_store_post(s0, s1, p),
        spoof_record_ok(s0, rec, p),
        restore_post(s1, s2, rec),
    ensures
        forall|q: Seq<char>| #[trigger] assoc_lookup(s2, q) == assoc_lookup(s0, q),
{
    assert forall|q: Seq<char>| #[trigger] assoc_lookup(s2, q) == assoc_lookup(s0, q) by {
        assert(assoc_lookup(s1, q) == (if assoc_has(p, q) {
            assoc_lookup(p, q)
        } else {
            assoc_lookup(s0, q)
        }));
        assert(assoc_lookup(rec, q) == (if assoc_has(p, q) {
            Some(assoc_lookup(s0, q))
        } else {
            None::<Option<Seq<char>>>
        }));
    }
}

/// Reverts every property a previous resetprop run for `identity`
/// overwrote, and consumes the record; a no-op where no record exists.
/// Sent unconditionally at the start of every specialization, so a stale
/// record left by an abnormal prior termination self-heals.
pub fn restore_if_needed(store: &mut PropertyMap, records: &mut RecordTable, identity: &str) -> (did:
    bool)
    requires
        old(store).wf(),
        records_wf(*old(records)),
    ensures
        final(store).wf(),
        records_wf(*final(records)),
        forall|id: Seq<char>|
            #![trigger assoc_lookup(final(records).kv(), id)]
            assoc_lookup(final(records).kv(), id) == (if id == identity@ {
                None::<<RestoreRecord as View>::V>
            } else {
                assoc_lookup(old(records).kv(), id)
            }),
        match assoc_lookup(old(records).kv(), identity@) {
            Some(rec) => did && restore_post(old(store).kv(), final(store).kv(), rec),
            None => !did && *final(store) == *old(store),
        },
{
    let did = match records.get(identity) {
        None => false,
        Some(rec) => {
            let ghost rv = rec.prior.kv();
            proof {
                assert(rv.take(0) =~= Seq::<(Seq<char>, Option<Seq<char>>)>::empty());
            }
            let n: usize = rec.prior.entries.len();
            let mut i: usize = 0;
            while i < n
                invariant
                    n == rv.len(),
                    0 <= i <= n,
                    rv == rec.prior.kv(),
                    assoc_distinct(rv),
                    store.wf(),
                    forall|q: Seq<char>| #[trigger] store.spec_get(q) == (match assoc_lookup(
                        rv.take(i as int),
                        q,
                    ) {
                        Some(prior) => prior,
                        None => old(store).spec_get(q),
                    }),
                decreases n - i,
            {
                let e = &rec.prior.entries[i];
                proof {
                    assert(rv[i as int] == (e.0@, e.1@));
                }
                match &e.1.value {
                    Some(v) => {
                        let cloned = v.clone();
                        store.set(e.0.as_str(), cloned);
                    },
                    None => {
                        store.remove_key(e.0.as_str());
                    },
                }
                proof {
                    assert(rv.take(i as int + 1) =~= rv.take(i as int).push(rv[i as int]));
                    assert forall|q: Seq<char>| #[trigger] store.spec_get(q) == (match assoc_lookup(
                        rv.take(i as int + 1),
                        q,
                    ) {
                        Some(prior) => prior,
                        None => old(store).spec_get(q),
                    }) by {
                        lemma_assoc_lookup_push(rv.take(i as int), rv[i as int], q);
                        if q == e.0@ {
                            lemma_assoc_lookup_index(rv.take(i as int), q);
                            if assoc_has(rv.take(i as int), q) {
                                let k: int = choose|k: int|
                                    0 <= k < rv.take(i as int).len() && (#[trigger] rv.take(
                                        i as int,
                                    )[k]).0 == q;
                                assert(rv[k].0 == rv[i as int].0);
                            }
                        }
                    }
                }
                i = i + 1;
            }
            proof {
                assert(rv.take(n as int) =~= rv);
                assert forall|q: Seq<char>| #[trigger] assoc_lookup(store.kv(), q) == (
                match assoc_lookup(rv, q) {
                    Some(prior) => prior,
                    None => assoc_lookup(old(store).kv(), q),
                }) by {
                    assert(store.spec_get(q) == (match assoc_lookup(rv.take(n as int), q) {
                        Some(prior) => prior,
                        None => old(store).spec_get(q),
                    }));
                }
            }
            true
        },
    };
    records.remove_key(identity);
    did
}

/// For each key of `props`, captures the store's current value into a new
/// restoration record for `identity` and writes the replacement value;
/// atomic per key, in map order. Requires that no record for `identity`
/// is pending, which the unconditional restore pass guarantees.
pub fn spoof_system_props_via_companion(
    store: &mut PropertyMap,
    records: &mut RecordTable,
    props: &PropertyMap,
    identity: &str,
)
    requires
        old(store).wf(),
        records_wf(*old(records)),
        props.wf(),
        !assoc_has(old(records).kv(), identity@),
    ensures
        final(store).wf(),
        records_wf(*final(records)),
        spoof_store_post(old(store).kv(), final(store).kv(), props.kv()),
        forall|id: Seq<char>|
            #![trigger assoc_lookup(final(records).kv(), id)]
            id != identity@ ==> assoc_lookup(final(records).kv(), id) == assoc_lookup(
                old(records).kv(),
                id,
            ),
        assoc_lookup(final(records).kv(), identity@) matches Some(rec) && spoof_record_ok(
            old(store).kv(),
            rec,
            props.kv(),
        ),
{
    let ghost p = props.kv();
    proof {
        assert(p.take(0) =~= Seq::<(Seq<char>, Seq<char>)>::empty());
    }
    let mut prior: AssocVec<PriorValue> = AssocVec::new();
    let n: usize = props.entries.len();
    let mut i: usize = 0;
    while i < n
        invariant
            n == p.len(),
            0 <= i <= n,
            p == props.kv(),
            assoc_distinct(p),
            store.wf(),
            prior.wf(),
            forall|q: Seq<char>| #[trigger] store.spec_get(q) == (match assoc_lookup(
                p.take(i as int),
                q,
            ) {
                Some(v) => Some(v),
                None => old(store).spec_get(q),
            }),
            forall|q: Seq<char>| #[trigger] assoc_lookup(prior.kv(), q) == (if assoc_has(
                p.take(i as int),
                q,
            ) {
                Some(old(store).spec_get(q))
            } else {
                None::<Option<Seq<char>>>
            }),
        decreases n - i,
    {
        let e = &props.entries[i];
        proof {
            assert(p[i as int] == (e.0@, e.1@));
            lemma_assoc_lookup_index(p.take(i as int), e.0@);
            if assoc_has(p.take(i as int), e.0@) {
                let k: int = choose|k: int|
                    0 <= k < p.take(i as int).len() && (#[trigger] p.take(i as int)[k]).0 == e.0@;
                assert(p[k].0 == p[i as int].0);
            }
        }
        let old_val = match store.get(e.0.as_str()) {
            Some(v) => PriorValue { value: Some(v.clone()) },
            None => PriorValue { value: None },
        };
        prior.set(e.0.as_str(), old_val);
        let replacement = e.1.clone();
        store.set(e.0.as_str(), replacement);
        proof {
            assert(p.take(i as int + 1) =~= p.take(i as int).push(p[i as int]));
            assert forall|q: Seq<char>| #[trigger] store.spec_get(q) == (match assoc_lookup(
                p.take(i as int + 1),
                q,
            ) {
                Some(v) => Some(v),
                None => old(store).spec_get(q),
            }) by {
                lemma_assoc_lookup_push(p.take(i as int), p[i as int], q);
            }
            assert forall|q: Seq<char>| #[trigger] assoc_lookup(prior.kv(), q) == (if assoc_has(
                p.take(i as int + 1),
                q,
            ) {
                Some(old(store).spec_get(q))
            } else {
                None::<Option<Seq<char>>>
            }) by {
                lemma_assoc_lookup_push(p.take(i as int), p[i as int], q);
            }
        }
        i = i + 1;
    }
    proof {
        assert(p.take(n as int) =~= p);
        assert forall|q: Seq<char>| #[trigger] assoc_lookup(store.kv(), q) == (if assoc_has(p, q) {
            assoc_lookup(p, q)
        } else {
            assoc_lookup(old(store).kv(), q)
        }) by {
            assert(store.spec_get(q) == (match assoc_lookup(p.take(n as int), q) {
                Some(v) => Some(v),
                None => old(store).spec_get(q),
            }));
        }
        assert forall|q: Seq<char>| #[trigger] assoc_lookup(prior.kv(), q) == (if assoc_has(p, q) {
            Some(assoc_lookup(old(store).kv(), q))
        } else {
            None::<Option<Seq<char>>>
        }) by {
            assert(assoc_lookup(prior.kv(), q) == (if assoc_has(p.take(n as int), q) {
                Some(old(store).spec_get(q))
            } else {
                None::<Option<Seq<char>>>
            }));
        }
    }
    records.set(identity, RestoreRecord { prior });
}

/// A request the sandboxed app-process side sends to the companion.
pub enum CompanionRequest {
    /// Revert and consume the restoration record for this identity, if any.
    RestoreIfNeeded(String),
    /// Overwrite the mapped properties for this identity, capturing prior
    /// values first.
    SpoofProps(String, PropertyMap),
}

impl CompanionRequest {
    /// A spoof request carries a property map with unique keys.
    pub open spec fn wf(self) -> bool {
        match self {
            CompanionRequest::RestoreIfNeeded(_) => true,
            CompanionRequest::SpoofProps(_, props) => props.wf(),
        }
    }
}

/// The companion's synchronous answer.
pub enum CompanionReply {
    /// Whether a record existed and was reverted.
    Restored(bool),
    /// Whether the spoof was applied; it is refused where a record is
    /// still pending, so a captured prior value is never overwritten.
    Spoofed(bool),
}

/// Serves one request against the global property store and the record
/// table: the dispatcher the privileged companion process runs.
pub fn handle_companion_request(
    store: &mut PropertyMap,
    records: &mut RecordTable,
    request: &CompanionRequest,
) -> (reply: CompanionReply)
    requires
        old(store).wf(),
        records_wf(*old(records)),
        request.wf(),
    ensures
        final(store).wf(),
        records_wf(*final(records)),
        match *request {
            CompanionRequest::RestoreIfNeeded(ref id) => {
                &&& forall|k: Seq<char>|
                    #![trigger assoc_lookup(final(records).kv(), k)]
                    assoc_lookup(final(records).kv(), k) == (if k == id@ {
                        None::<<RestoreRecord as View>::V>
                    } else {
                        assoc_lookup(old(records).kv(), k)
                    })
                &&& match assoc_lookup(old(records).kv(), id@) {
                    Some(rec) => reply == CompanionReply::Restored(true) && restore_post(
                        old(store).kv(),
                        final(store).kv(),
                        rec,
                    ),
                    None => reply == CompanionReply::Restored(false) && *final(store) == *old(store),
                }
            },
            CompanionRequest::SpoofProps(ref id, ref props) => {
                if assoc_has(old(records).kv(), id@) {
                    &&& reply == CompanionReply::Spoofed(false)
                    &&& *final(store) == *old(store)
                    &&& *final(records) == *old(records)
                } else {
                    &&& reply == CompanionReply::Spoofed(true)
                    &&& spoof_store_post(old(store).kv(), final(store).kv(), props.kv())
                    &&& forall|k: Seq<char>|
                        #![trigger assoc_lookup(final(records).kv(), k)]
                        k != id@ ==> assoc_lookup(final(records).kv(), k) == assoc_lookup(
                            old(records).kv(),
                            k,
                        )
                    &&& assoc_lookup(final(records).kv(), id@) matches Some(rec)
                        && spoof_record_ok(old(store).kv(), rec, props.kv())
                }
            },
        },
{
    match request {
        CompanionRequest::RestoreIfNeeded(id) => {
            let did = restore_if_needed(store, records, id.as_str());
            CompanionReply::Restored(did)
        },
        CompanionRequest::SpoofProps(id, props) => {
            if records.contains_key(id.as_str()) {
                CompanionReply::Spoofed(false)
            } else {
                spoof_system_props_via_companion(store, records, props, id.as_str());
                CompanionReply::Spoofed(true)
            }
        },
    }
}

} // verus!

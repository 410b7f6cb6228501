use vstd::prelude::*;
use crate::strmap::{PropertyMap, assoc_lookup, assoc_has};
use crate::config::{Config, AppConfigView, TemplateView, empty_template_view, merged_ok,
    spec_identity_key, identity_key};
use crate::mode::{SpoofMode, spec_mode_of};
use crate::state::SpoofState;
use crate::companion::{RecordTable, records_wf, restore_if_needed,
    spoof_system_props_via_companion};
use crate::hooks::{spec_known_build_fields, spec_patches, patches_kv, build_field_patches,
    lemma_spec_patches_congruent};

verus! {

/// How configuration loading ended: no file, unreadable text, or a
/// parsed configuration. The first two are non-fatal and spoof nothing.
pub enum ConfigOutcome {
    Missing,
    Unparseable,
    Loaded(Config),
}

impl ConfigOutcome {
    /// A loaded configuration is well-formed.
    pub open spec fn wf(self) -> bool {
        match self {
            ConfigOutcome::Loaded(cfg) => cfg.wf(),
            _ => true,
        }
    }

    /// Whether the configuration asked for informational logging.
    pub open spec fn spec_debug(self) -> bool {
        match self {
            ConfigOutcome::Loaded(cfg) => cfg.debug,
            _ => false,
        }
    }
}

/// The app entry a specialization resolves to: the `"{pkg}@{user}"` key
/// first, the bare package name second, nothing otherwise.
pub open spec fn resolved_entry(c: ConfigOutcome, pkg: Seq<char>, user_id: u32) -> Option<
    AppConfigView,
> {
    match c {
        ConfigOutcome::Loaded(cfg) => {
            if assoc_has(cfg.apps.kv(), spec_identity_key(pkg, user_id)) {
                assoc_lookup(cfg.apps.kv(), spec_identity_key(pkg, user_id))
            } else {
                assoc_lookup(cfg.apps.kv(), pkg)
            }
        },
        _ => None,
    }
}

/// The template contribution of the resolved entry.
pub open spec fn resolved_template(c: ConfigOutcome, a: AppConfigView) -> TemplateView {
    match c {
        ConfigOutcome::Loaded(cfg) => cfg.spec_template_for(a),
        _ => empty_template_view(),
    }
}

/// The effective replacement for property `q` under entry `a` and its
/// template `t`: the inline value where present, else the template's.
pub open spec fn effective_prop(a: AppConfigView, t: TemplateView, q: Seq<char>) -> Option<
    Seq<char>,
> {
    if assoc_has(a.properties, q) {
        assoc_lookup(a.properties, q)
    } else {
        assoc_lookup(t.properties, q)
    }
}

/// The effective denylist-unmount flag: the explicit override, else the
/// template's flag.
pub open spec fn effective_force(a: AppConfigView, t: TemplateView) -> bool {
    match a.force_denylist_unmount {
        Some(b) => b,
        None => t.force_denylist_unmount,
    }
}

/// The build-field patches the effective policy calls for.
pub open spec fn effective_patches(a: AppConfigView, t: TemplateView) -> Seq<
    (Seq<char>, Seq<char>),
> {
    spec_patches(spec_known_build_fields(), |q: Seq<char>| effective_prop(a, t, q))
}

/// What the store holds at `q` after the unconditional restoration pass
/// for identity `id` consumed the record, if any, in `recs0`.
pub open spec fn value_after_restore(
    s0: Seq<(Seq<char>, Seq<char>)>,
    recs0: Seq<(Seq<char>, Seq<(Seq<char>, Option<Seq<char>>)>)>,
    id: Seq<char>,
    q: Seq<char>,
) -> Option<Seq<char>> {
    match assoc_lookup(recs0, id) {
        Some(rec) => match assoc_lookup(rec, q) {
            Some(prior) => prior,
            None => assoc_lookup(s0, q),
        },
        None => assoc_lookup(s0, q),
    }
}

/// The store changed only by the restoration pass for `id`.
pub open spec fn store_restored_only(
    s0: Seq<(Seq<char>, Seq<char>)>,
    s1: Seq<(Seq<char>, Seq<char>)>,
    recs0: Seq<(Seq<char>, Seq<(Seq<char>, Option<Seq<char>>)>)>,
    id: Seq<char>,
) -> bool {
    forall|q: Seq<char>| #[trigger] assoc_lookup(s1, q) == value_after_restore(s0, recs0, id, q)
}

/// The record table changed only by consuming the record for `id`.
pub open spec fn records_restored_only(
    recs0: Seq<(Seq<char>, Seq<(Seq<char>, Option<Seq<char>>)>)>,
    recs1: Seq<(Seq<char>, Seq<(Seq<char>, Option<Seq<char>>)>)>,
    id: Seq<char>,
) -> bool {
    forall|k: Seq<char>| #[trigger] assoc_lookup(recs1, k) == (if k == id {
        None::<Seq<(Seq<char>, Option<Seq<char>>)>>
    } else {
        assoc_lookup(recs0, k)
    })
}

/// What a specialization asks of the host and of the process.
pub struct SpecializeActions {
    /// Ask the host to unload the module when specialization ends.
    pub request_unload: bool,
    /// Ask the host to force the denylist unmount.
    pub force_denylist_unmount: bool,
    /// Install the property-read interception layer (`Full` only).
    pub install_interception: bool,
    /// Whether properties were written through the companion (`Resetprop`).
    pub companion_spoofed: bool,
    /// The (field, value) build-identity patches to write.
    pub field_patches: Vec<(String, String)>,
    /// Whether the configuration asked for informational logging.
    pub debug_logging: bool,
}

/// Everything one specialization does, as a relation between the state,
/// store and record table before and after, and the actions returned.
pub open spec fn specialize_post(
    c: ConfigOutcome,
    pkg: Seq<char>,
    user_id: u32,
    st1: SpoofState,
    s0: Seq<(Seq<char>, Seq<char>)>,
    s1: Seq<(Seq<char>, Seq<char>)>,
    recs0: Seq<(Seq<char>, Seq<(Seq<char>, Option<Seq<char>>)>)>,
    recs1: Seq<(Seq<char>, Seq<(Seq<char>, Option<Seq<char>>)>)>,
    acts: SpecializeActions,
) -> bool {
    let key = spec_identity_key(pkg, user_id);
    &&& acts.debug_logging == c.spec_debug()
    &&& match resolved_entry(c, pkg, user_id) {
        None => {
            &&& st1.is_inactive()
            &&& acts.request_unload
            &&& !acts.install_interception
            &&& !acts.force_denylist_unmount
            &&& !acts.companion_spoofed
            &&& acts.field_patches@.len() == 0
            &&& store_restored_only(s0, s1, recs0, key)
            &&& records_restored_only(recs0, recs1, key)
        },
        Some(a) => {
            let t = resolved_template(c, a);
            &&& acts.force_denylist_unmount == effective_force(a, t)
            &&& patches_kv(acts.field_patches@) == effective_patches(a, t)
            &&& match spec_mode_of(a.mode) {
                SpoofMode::Lite => {
                    &&& st1.is_inactive()
                    &&& acts.request_unload
                    &&& !acts.install_interception
                    &&& !acts.companion_spoofed
                    &&& store_restored_only(s0, s1, recs0, key)
                    &&& records_restored_only(recs0, recs1, key)
                },
                SpoofMode::Full => {
                    &&& st1.full_mode_active
                    &&& !acts.request_unload
                    &&& acts.install_interception
                    &&& !acts.companion_spoofed
                    &&& forall|q: Seq<char>| #[trigger] st1.spec_intercept(q) == effective_prop(
                        a,
                        t,
                        q,
                    )
                    &&& store_restored_only(s0, s1, recs0, key)
                    &&& records_restored_only(recs0, recs1, key)
                },
                SpoofMode::Resetprop => {
                    &&& st1.is_inactive()
                    &&& acts.request_unload
                    &&& !acts.install_interception
                    &&& acts.companion_spoofed
                    &&& forall|q: Seq<char>| #[trigger] assoc_lookup(s1, q) == (
                    if effective_prop(a, t, q) is Some {
                        effective_prop(a, t, q)
                    } else {
                        value_after_restore(s0, recs0, key, q)
                    })
                    &&& forall|k: Seq<char>| k != key ==> #[trigger] assoc_lookup(recs1, k)
                        == assoc_lookup(recs0, k)
                    &&& assoc_lookup(recs1, key) matches Some(rec) && (forall|q: Seq<char>|
                    #[trigger] assoc_lookup(rec, q) == (if effective_prop(a, t, q) is Some {
                        Some(value_after_restore(s0, recs0, key, q))
                    } else {
                        None::<Option<Seq<char>>>
                    }))
                },
            }
        },
    }
}

/// One app specialization, from the restoration pass to the selected
/// strategy: resolves the identity against the configuration, merges the
/// entry with its template, plans the build-field patch, runs the chosen
/// strategy against the spoof state and (for `Resetprop`) the companion's
/// store and record table, and returns what the host must be asked.
pub fn handle_app_specialize(
    state: &mut SpoofState,
    store: &mut PropertyMap,
    records: &mut RecordTable,
    package: &str,
    user_id: u32,
    config: &ConfigOutcome,
) -> (acts: SpecializeActions)
    requires
        old(state).is_inactive(),
        old(store).wf(),
        records_wf(*old(records)),
        config.wf(),
    ensures
        final(state).wf(),
        final(store).wf(),
        records_wf(*final(records)),
        specialize_post(
            *config,
            package@,
            user_id,
            *final(state),
            old(store).kv(),
            final(store).kv(),
            old(records).kv(),
            final(records).kv(),
            acts,
        ),
{
    let key = identity_key(package, user_id);
    let ghost s0 = store.kv();
    let ghost recs0 = records.kv();
    restore_if_needed(store, records, key.as_str());
    let ghost s_mid = store.kv();
    let ghost recs_mid = records.kv();
    proof {
        assert forall|q: Seq<char>| #[trigger] assoc_lookup(s_mid, q) == value_after_restore(
            s0,
            recs0,
            key@,
            q,
        ) by {
            match assoc_lookup(recs0, key@) {
                Some(rec) => {
                    assert(assoc_lookup(s_mid, q) == (match assoc_lookup(rec, q) {
                        Some(prior) => prior,
                        None => assoc_lookup(s0, q),
                    }));
                },
                None => {},
            }
        }
    }
    match config {
        ConfigOutcome::Missing => {
            state.record_inactive();
            SpecializeActions {
                request_unload: true,
                force_denylist_unmount: false,
                install_interception: false,
                companion_spoofed: false,
                field_patches: Vec::new(),
                debug_logging: false,
            }
        },
        ConfigOutcome::Unparseable => {
            state.record_inactive();
            SpecializeActions {
                request_unload: true,
                force_denylist_unmount: false,
                install_interception: false,
                companion_spoofed: false,
                field_patches: Vec::new(),
                debug_logging: false,
            }
        },
        ConfigOutcome::Loaded(cfg) => {
            let debug_logging = cfg.debug;
            match cfg.get_merged_for_identity(package, user_id) {
                None => {
                    state.record_inactive();
                    SpecializeActions {
                        request_unload: true,
                        force_denylist_unmount: false,
                        install_interception: false,
                        companion_spoofed: false,
                        field_patches: Vec::new(),
                        debug_logging,
                    }
                },
                Some(merged) => {
                    let ghost a = resolved_entry(*config, package@, user_id)->Some_0;
                    let ghost t = resolved_template(*config, a);
                    proof {
                        assert(resolved_entry(*config, package@, user_id) is Some);
                        assert(merged_ok(a, t, merged@));
                        assert forall|q: Seq<char>| #[trigger] assoc_lookup(merged@.properties, q)
                            == effective_prop(a, t, q) by {}
                    }
                    let field_patches = build_field_patches(&merged);
                    proof {
                        lemma_spec_patches_congruent(
                            spec_known_build_fields(),
                            |q: Seq<char>| assoc_lookup(merged@.properties, q),
                            |q: Seq<char>| effective_prop(a, t, q),
                        );
                    }
                    let force_denylist_unmount = merged.force_denylist_unmount;
                    match SpoofMode::from_mode_str(merged.mode.as_str()) {
                        SpoofMode::Lite => {
                            state.record_inactive();
                            SpecializeActions {
                                request_unload: true,
                                force_denylist_unmount,
                                install_interception: false,
                                companion_spoofed: false,
                                field_patches,
                                debug_logging,
                            }
                        },
                        SpoofMode::Full => {
                            let property_map = Config::build_merged_property_map(&merged);
                            let ghost pm = property_map;
                            state.record_full(property_map);
                            proof {
                                assert forall|q: Seq<char>| #[trigger] state.spec_intercept(q)
                                    == effective_prop(a, t, q) by {
                                    assert(assoc_lookup(pm.kv(), q) == pm.spec_get(q));
                                }
                            }
                            SpecializeActions {
                                request_unload: false,
                                force_denylist_unmount,
                                install_interception: true,
                                companion_spoofed: false,
                                field_patches,
                                debug_logging,
                            }
                        },
                        SpoofMode::Resetprop => {
                            let property_map = Config::build_merged_property_map(&merged);
                            let ghost pm = property_map;
                            spoof_system_props_via_companion(
                                store,
                                records,
                                &property_map,
                                key.as_str(),
                            );
                            state.record_inactive();
                            proof {
                                assert forall|q: Seq<char>| #[trigger] assoc_lookup(
                                    store.kv(),
                                    q,
                                ) == (if effective_prop(a, t, q) is Some {
                                    effective_prop(a, t, q)
                                } else {
                                    value_after_restore(s0, recs0, key@, q)
                                }) by {
                                    assert(assoc_lookup(pm.kv(), q) == pm.spec_get(q));
                                    assert(assoc_lookup(s_mid, q) == value_after_restore(
                                        s0,
                                        recs0,
                                        key@,
                                        q,
                                    ));
                                }
                                let rec = assoc_lookup(records.kv(), key@)->Some_0;
                                assert forall|q: Seq<char>| #[trigger] assoc_lookup(rec, q) == (
                                if effective_prop(a, t, q) is Some {
                                    Some(value_after_restore(s0, recs0, key@, q))
                                } else {
                                    None::<Option<Seq<char>>>
                                }) by {
                                    assert(assoc_lookup(pm.kv(), q) == pm.spec_get(q));
                                    assert(assoc_lookup(s_mid, q) == value_after_restore(
                                        s0,
                                        recs0,
                                        key@,
                                        q,
                                    ));
                                }
                            }
                            SpecializeActions {
                                request_unload: true,
                                force_denylist_unmount,
                                install_interception: false,
                                companion_spoofed: true,
                                field_patches,
                                debug_logging,
                            }
                        },
                    }
                },
            }
        },
    }
}

} // verus!

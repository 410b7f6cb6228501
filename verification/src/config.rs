use vstd::prelude::*;
use vstd::string::*;
use crate::strmap::{AssocVec, PropertyMap, assoc_lookup, assoc_has, assoc_distinct,
    lemma_assoc_lookup_push, lemma_assoc_lookup_index};

verus! {

/// The character a decimal digit stands for.
pub open spec fn digit_char(d: nat) -> char {
    if d == 0 { '0' }
    else if d == 1 { '1' }
    else if d == 2 { '2' }
    else if d == 3 { '3' }
    else if d == 4 { '4' }
    else if d == 5 { '5' }
    else if d == 6 { '6' }
    else if d == 7 { '7' }
    else if d == 8 { '8' }
    else if d == 9 { '9' }
    else { ' ' }
}

/// The decimal rendering of a natural number, most significant digit first.
pub open spec fn spec_decimal(n: nat) -> Seq<char>
    decreases n,
{
    if n < 10 {
        seq![digit_char(n)]
    } else {
        spec_decimal(n / 10).push(digit_char(n % 10))
    }
}

/// The single-character string for a decimal digit.
fn digit_str(d: u32) -> (r: &'static str)
    requires
        d < 10,
    ensures
        r@ =~= seq![digit_char(d as nat)],
{
    proof {
        reveal_strlit("0");
        reveal_strlit("1");
        reveal_strlit("2");
        reveal_strlit("3");
        reveal_strlit("4");
        reveal_strlit("5");
        reveal_strlit("6");
        reveal_strlit("7");
        reveal_strlit("8");
        reveal_strlit("9");
    }
    if d == 0 { "0" }
    else if d == 1 { "1" }
    else if d == 2 { "2" }
    else if d == 3 { "3" }
    else if d == 4 { "4" }
    else if d == 5 { "5" }
    else if d == 6 { "6" }
    else if d == 7 { "7" }
    else if d == 8 { "8" }
    else { "9" }
}

/// Renders `n` in decimal.
pub fn u32_to_string(n: u32) -> (r: String)
    ensures
        r@ == spec_decimal(n as nat),
    decreases n,
{
    if n < 10 {
        digit_str(n).to_owned()
    } else {
        let mut s = u32_to_string(n / 10);
        s.append(digit_str(n % 10));
        proof {
            assert(spec_decimal((n / 10) as nat).push(digit_char((n % 10) as nat))
                =~= spec_decimal((n / 10) as nat) + seq![digit_char((n % 10) as nat)]);
        }
        s
    }
}

/// The lookup key of an app identity: the package name, '@', the user id.
pub open spec fn spec_identity_key(package: Seq<char>, user_id: u32) -> Seq<char> {
    package + seq!['@'] + spec_decimal(user_id as nat)
}

/// Builds the `"{package}@{user_id}"` lookup key.
pub fn identity_key(package: &str, user_id: u32) -> (r: String)
    ensures
        r@ == spec_identity_key(package@, user_id),
{
    proof {
        reveal_strlit("@");
    }
    let s = String::from_str(package).concat("@");
    proof {
        assert("@"@ =~= seq!['@']);
    }
    let digits = u32_to_string(user_id);
    let r = s.concat(digits.as_str());
    r
}

/// The Android user a process uid belongs to: uids are laid out as
/// `user_id * 100000 + app_id`, and a non-positive uid counts as user 0.
pub fn extract_android_user_id(uid: i32) -> (r: u32)
    ensures
        r == (if uid <= 0 {
            0u32
        } else {
            (uid as u32) / 100000u32
        }),
{
    if uid <= 0 {
        0
    } else {
        (uid as u32) / 100000
    }
}

/// A named reusable bundle of property overrides plus flags.
pub struct Template {
    pub properties: PropertyMap,
    pub force_denylist_unmount: bool,
}

/// Mathematical content of a `Template`.
pub struct TemplateView {
    pub properties: Seq<(Seq<char>, Seq<char>)>,
    pub force_denylist_unmount: bool,
}

impl View for Template {
    type V = TemplateView;

    open spec fn view(&self) -> TemplateView {
        TemplateView {
            properties: self.properties.kv(),
            force_denylist_unmount: self.force_denylist_unmount,
        }
    }
}

/// The contribution of a missing template: no properties, no flags.
pub open spec fn empty_template_view() -> TemplateView {
    TemplateView { properties: Seq::empty(), force_denylist_unmount: false }
}

/// A per-package configuration entry.
pub struct AppConfig {
    pub mode: String,
    pub template: Option<String>,
    pub properties: PropertyMap,
    pub force_denylist_unmount: Option<bool>,
}

/// Mathematical content of an `AppConfig`.
pub struct AppConfigView {
    pub mode: Seq<char>,
    pub template: Option<Seq<char>>,
    pub properties: Seq<(Seq<char>, Seq<char>)>,
    pub force_denylist_unmount: Option<bool>,
}

impl View for AppConfig {
    type V = AppConfigView;

    open spec fn view(&self) -> AppConfigView {
        AppConfigView {
            mode: self.mode@,
            template: match self.template {
                Some(t) => Some(t@),
                None => None,
            },
            properties: self.properties.kv(),
            force_denylist_unmount: self.force_denylist_unmount,
        }
    }
}

/// The resolved, immutable combination of an `AppConfig` with its template.
pub struct MergedAppConfig {
    pub mode: String,
    pub force_denylist_unmount: bool,
    pub properties: PropertyMap,
}

/// Mathematical content of a `MergedAppConfig`.
pub struct MergedAppConfigView {
    pub mode: Seq<char>,
    pub force_denylist_unmount: bool,
    pub properties: Seq<(Seq<char>, Seq<char>)>,
}

impl View for MergedAppConfig {
    type V = MergedAppConfigView;

    open spec fn view(&self) -> MergedAppConfigView {
        MergedAppConfigView {
            mode: self.mode@,
            force_denylist_unmount: self.force_denylist_unmount,
            properties: self.properties.kv(),
        }
    }
}

/// What it means for `m` to be the merge of app entry `a` with template `t`:
/// the mode is the app's, the flag is the app's explicit override or else the
/// template's, and for every property key the app's inline value takes
/// precedence over the template's.
pub open spec fn merged_ok(a: AppConfigView, t: TemplateView, m: MergedAppConfigView) -> bool {
    &&& m.mode == a.mode
    &&& m.force_denylist_unmount == (match a.force_denylist_unmount {
        Some(b) => b,
        None => t.force_denylist_unmount,
    })
    &&& assoc_distinct(m.properties)
    &&& forall|q: Seq<char>| #[trigger] assoc_lookup(m.properties, q) == (if assoc_has(
        a.properties,
        q,
    ) {
        assoc_lookup(a.properties, q)
    } else {
        assoc_lookup(t.properties, q)
    })
}

/// Merge is a function of the app entry and the template alone: two merges of
/// the same inputs agree on the mode, the flag, and every property key.
pub proof fn lemma_merge_deterministic(
    a: AppConfigView,
    t: TemplateView,
    m1: MergedAppConfigView,
    m2: MergedAppConfigView,
)
    requires
        merged_ok(a, t, m1),
        merged_ok(a, t, m2),
    ensures
        m1.mode == m2.mode,
        m1.force_denylist_unmount == m2.force_denylist_unmount,
        forall|q: Seq<char>| #[trigger] assoc_lookup(m1.properties, q) == assoc_lookup(
            m2.properties,
            q,
        ),
{
}

/// Inline app values always override template values for the same key.
pub proof fn lemma_merge_app_precedence(
    a: AppConfigView,
    t: TemplateView,
    m: MergedAppConfigView,
    q: Seq<char>,
)
    requires
        merged_ok(a, t, m),
        assoc_has(a.properties, q),
    ensures
        assoc_lookup(m.properties, q) == assoc_lookup(a.properties, q),
{
}

/// Copies every entry of `src` into `dst`, later entries overriding earlier
/// bindings of the same key; `src`'s keys are unique, so the result binds
/// exactly what `src` binds on top of what `dst` already bound.
fn overlay(dst: &mut PropertyMap, src: &PropertyMap)
    requires
        old(dst).wf(),
        src.wf(),
    ensures
        final(dst).wf(),
        forall|q: Seq<char>|
            #![trigger final(dst).spec_get(q)]
            #![trigger assoc_lookup(final(dst).kv(), q)]
            final(dst).spec_get(q) == (if assoc_has(src.kv(), q) {
            assoc_lookup(src.kv(), q)
        } else {
            old(dst).spec_get(q)
        }),
{
    let ghost s = src.kv();
    let n: usize = src.entries.len();
    let mut j: usize = 0;
    proof {
        assert(s.take(0) =~= Seq::<(Seq<char>, Seq<char>)>::empty());
    }
    while j < n
        invariant
            n == s.len(),
            0 <= j <= n,
            s == src.kv(),
            assoc_distinct(s),
            dst.wf(),
            forall|q: Seq<char>| #[trigger] dst.spec_get(q) == (if assoc_has(
                s.take(j as int),
                q,
            ) {
                assoc_lookup(s.take(j as int), q)
            } else {
                old(dst).spec_get(q)
            }),
        decreases n - j,
    {
        let e = &src.entries[j];
        proof {
            assert(s[j as int] == (e.0@, e.1@));
        }
        let v = e.1.clone();
        dst.set(e.0.as_str(), v);
        proof {
            assert(s.take(j as int + 1) =~= s.take(j as int).push(s[j as int]));
            assert forall|q: Seq<char>| #[trigger] dst.spec_get(q) == (if assoc_has(
                s.take(j as int + 1),
                q,
            ) {
                assoc_lookup(s.take(j as int + 1), q)
            } else {
                old(dst).spec_get(q)
            }) by {
                lemma_assoc_lookup_push(s.take(j as int), s[j as int], q);
                if q == e.0@ {
                    lemma_assoc_lookup_index(s.take(j as int), q);
                    if assoc_has(s.take(j as int), q) {
                        let i: int = choose|i: int|
                            0 <= i < s.take(j as int).len() && (#[trigger] s.take(j as int)[i]).0
                                == q;
                        assert(s[i].0 == s[j as int].0);
                    }
                }
            }
        }
        j = j + 1;
    }
    proof {
        assert(s.take(n as int) =~= s);
    }
}

/// Combines an `AppConfig` with its referenced template into the effective
/// per-app policy; inline values win, flags are the explicit override or
/// else the template's.
pub fn merge(app: &AppConfig, template: &Template) -> (r: MergedAppConfig)
    requires
        app.properties.wf(),
        template.properties.wf(),
    ensures
        r.properties.wf(),
        merged_ok(app@, template@, r@),
{
    let mut props: PropertyMap = AssocVec::new();
    overlay(&mut props, &template.properties);
    let ghost after_tpl = props;
    overlay(&mut props, &app.properties);
    let force = match app.force_denylist_unmount {
        Some(b) => b,
        None => template.force_denylist_unmount,
    };
    let r = MergedAppConfig { mode: app.mode.clone(), force_denylist_unmount: force, properties: props };
    proof {
        assert forall|q: Seq<char>| #[trigger] assoc_lookup(r@.properties, q) == (if assoc_has(
            app@.properties,
            q,
        ) {
            assoc_lookup(app@.properties, q)
        } else {
            assoc_lookup(template@.properties, q)
        }) by {
            assert(after_tpl.spec_get(q) == assoc_lookup(template@.properties, q));
        }
    }
    r
}

/// The layered configuration: per-app entries, shared templates, debug flag.
pub struct Config {
    pub apps: AssocVec<AppConfig>,
    pub templates: AssocVec<Template>,
    pub debug: bool,
}

impl Config {
    /// Well-formed: unique keys throughout, and every stored property map
    /// has unique keys as well.
    pub open spec fn wf(self) -> bool {
        &&& self.apps.wf()
        &&& self.templates.wf()
        &&& forall|q: Seq<char>| (#[trigger] assoc_lookup(self.apps.kv(), q)) matches Some(a)
            ==> assoc_distinct(a.properties)
        &&& forall|q: Seq<char>| (#[trigger] assoc_lookup(self.templates.kv(), q)) matches Some(t)
            ==> assoc_distinct(t.properties)
    }

    /// The template contribution an app entry refers to: the named template
    /// where it exists, else the empty contribution.
    pub open spec fn spec_template_for(self, a: AppConfigView) -> TemplateView {
        match a.template {
            Some(name) => match assoc_lookup(self.templates.kv(), name) {
                Some(t) => t,
                None => empty_template_view(),
            },
            None => empty_template_view(),
        }
    }

    /// An empty configuration.
    pub fn new(debug: bool) -> (r: Config)
        ensures
            r.wf(),
            r.debug == debug,
            forall|q: Seq<char>| #[trigger] assoc_lookup(r.apps.kv(), q) is None,
            forall|q: Seq<char>| #[trigger] assoc_lookup(r.templates.kv(), q) is None,
    {
        let r = Config { apps: AssocVec::new(), templates: AssocVec::new(), debug };
        proof {
            assert forall|q: Seq<char>| #[trigger] assoc_lookup(r.apps.kv(), q) is None by {
                lemma_assoc_lookup_index(r.apps.kv(), q);
            }
            assert forall|q: Seq<char>| #[trigger] assoc_lookup(r.templates.kv(), q) is None by {
                lemma_assoc_lookup_index(r.templates.kv(), q);
            }
        }
        r
    }

    /// Adds or replaces a per-app entry.
    pub fn add_app(&mut self, key: &str, app: AppConfig)
        requires
            old(self).wf(),
            app.properties.wf(),
        ensures
            final(self).wf(),
            final(self).debug == old(self).debug,
            final(self).templates == old(self).templates,
            forall|q: Seq<char>| #[trigger] assoc_lookup(final(self).apps.kv(), q) == (if q
                == key@ {
                Some(app@)
            } else {
                assoc_lookup(old(self).apps.kv(), q)
            }),
    {
        self.apps.set(key, app);
    }

    /// Adds or replaces a named template.
    pub fn add_template(&mut self, name: &str, template: Template)
        requires
            old(self).wf(),
            template.properties.wf(),
        ensures
            final(self).wf(),
            final(self).debug == old(self).debug,
            final(self).apps == old(self).apps,
            forall|q: Seq<char>| #[trigger] assoc_lookup(final(self).templates.kv(), q) == (if q
                == name@ {
                Some(template@)
            } else {
                assoc_lookup(old(self).templates.kv(), q)
            }),
    {
        self.templates.set(name, template);
    }

    /// Resolves the app entry stored under `key` against its template.
    /// Deterministic and side-effect-free; a missing template contributes
    /// nothing; a missing key yields `None`.
    pub fn get_merged_config(&self, key: &str) -> (r: Option<MergedAppConfig>)
        requires
            self.wf(),
        ensures
            match r {
                Some(m) => {
                    &&& assoc_lookup(self.apps.kv(), key@) matches Some(a) && merged_ok(
                        a,
                        self.spec_template_for(a),
                        m@,
                    )
                    &&& m.properties.wf()
                },
                None => assoc_lookup(self.apps.kv(), key@) is None,
            },
    {
        let app_cfg = match self.apps.get(key) {
            Some(a) => a,
            None => {
                return None;
            },
        };
        let empty_template = Template {
            properties: AssocVec::new(),
            force_denylist_unmount: false,
        };
        proof {
            assert(empty_template.properties.kv() =~= Seq::<(Seq<char>, Seq<char>)>::empty());
            assert(empty_template@ == empty_template_view());
        }
        let template_ref: &Template = match &app_cfg.template {
            Some(name) => match self.templates.get(name.as_str()) {
                Some(t) => t,
                None => &empty_template,
            },
            None => &empty_template,
        };
        Some(merge(app_cfg, template_ref))
    }

    /// Resolves a process identity: first `"{package}@{user_id}"`, then the
    /// bare package name, else `None`.
    pub fn get_merged_for_identity(&self, package: &str, user_id: u32) -> (r: Option<
        MergedAppConfig,
    >)
        requires
            self.wf(),
        ensures
            match r {
                Some(m) => {
                    &&& m.properties.wf()
                    &&& if assoc_has(self.apps.kv(), spec_identity_key(package@, user_id)) {
                        assoc_lookup(self.apps.kv(), spec_identity_key(package@, user_id))
                            matches Some(a) && merged_ok(a, self.spec_template_for(a), m@)
                    } else {
                        assoc_lookup(self.apps.kv(), package@) matches Some(a) && merged_ok(
                            a,
                            self.spec_template_for(a),
                            m@,
                        )
                    }
                },
                None => {
                    &&& !assoc_has(self.apps.kv(), spec_identity_key(package@, user_id))
                    &&& !assoc_has(self.apps.kv(), package@)
                },
            },
    {
        let key = identity_key(package, user_id);
        match self.get_merged_config(key.as_str()) {
            Some(m) => Some(m),
            None => self.get_merged_config(package),
        }
    }

    /// Builds the immutable property map a strategy receives; an empty
    /// effective property set yields an empty map.
    pub fn build_merged_property_map(merged: &MergedAppConfig) -> (r: PropertyMap)
        requires
            merged.properties.wf(),
        ensures
            r.wf(),
            forall|q: Seq<char>| #[trigger] r.spec_get(q) == assoc_lookup(merged@.properties, q),
    {
        let mut props: PropertyMap = AssocVec::new();
        overlay(&mut props, &merged.properties);
        proof {
            assert forall|q: Seq<char>| #[trigger] props.spec_get(q) == assoc_lookup(
                merged@.properties,
                q,
            ) by {
                lemma_assoc_lookup_index(merged.properties.kv(), q);
            }
        }
        props
    }
}

} // verus!

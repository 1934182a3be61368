//! The evaluation facade: typed getters over a cached repository snapshot.
//!
//! An unknown toggle key or a value of the wrong type falls back to the
//! caller-supplied default, with a reason saying why.  The surrounding
//! lifecycle — spawning the background synchronizer, HTTP transport, event
//! recording — is ordinary client code around this core.

use vstd::prelude::*;
use vstd::string::StringExecFns;

use crate::evaluate::{
    spec_eval, toggles_view, DetailModel, EvalDetail, Repository, RepositoryModel, Toggle,
};
use crate::table::{lemma_table_get_rel, raw_view, table_find, table_get};
use crate::user::FPUser;
use crate::value::{FPValue, ValueModel};
use crate::FPDetail;

verus! {

/// A feature-flag client over an in-memory repository snapshot.
pub struct FeatureProbe {
    repo: Repository,
    server_sdk_key: String,
    max_prerequisites_deep: u8,
}

/// What a [`FeatureProbe`] denotes.
pub struct ProbeModel {
    /// The cached repository.
    pub repo: RepositoryModel,
    /// The SDK key this client authenticates with.
    pub server_sdk_key: Seq<char>,
    /// How deep a prerequisite chain may go.
    pub max_prerequisites_deep: u8,
}

impl View for FeatureProbe {
    type V = ProbeModel;

    closed spec fn view(&self) -> ProbeModel {
        ProbeModel {
            repo: self.repo@,
            server_sdk_key: self.server_sdk_key@,
            max_prerequisites_deep: self.max_prerequisites_deep,
        }
    }
}

/// What one evaluation of a named toggle yields: nothing when the key is not
/// in the repository, else the toggle's detail with the repository's debug
/// deadline attached.
pub open spec fn spec_probe_eval(
    repo: RepositoryModel,
    toggle: Seq<char>,
    user: crate::user::UserModel,
    is_detail: bool,
    depth: nat,
    now: u128,
) -> Option<DetailModel> {
    match table_get(repo.toggles, toggle) {
        None => None,
        Some(t) => Some(
            spec_eval(
                t,
                user,
                repo.segments,
                repo.toggles,
                is_detail,
                depth,
                repo.debug_until_time,
                now,
            ),
        ),
    }
}

/// The reason reported for a toggle key that is not in the repository.
pub open spec fn spec_not_exist_reason(toggle: Seq<char>) -> Seq<char> {
    "Toggle:["@ + toggle + "] not exist"@
}

/// The reason reported when a served value cannot be cast to the requested
/// type.
pub open spec fn spec_mismatch_reason() -> Seq<char> {
    "Value type mismatch."@
}

impl FeatureProbe {
    /// A client over a pre-supplied repository.
    pub fn new_with(server_key: String, repo: Repository) -> (fp: FeatureProbe)
        ensures
            fp@.repo == repo@,
            fp@.server_sdk_key == server_key@,
            fp@.max_prerequisites_deep == 20u8,
    {
        FeatureProbe { repo, server_sdk_key: server_key, max_prerequisites_deep: 20 }
    }

    /// A client holding a single always-on toggle that serves `value`.
    pub fn new_for_test(toggle: &str, value: FPValue) -> (fp: FeatureProbe)
        ensures
            fp@.repo.toggles =~= seq![
                (toggle@, crate::evaluate::spec_test_toggle(toggle@, value@)),
            ],
            fp@.repo.segments.len() == 0,
            fp@.repo.events is None,
            fp@.repo.version == Some(0u128),
            fp@.repo.debug_until_time is None,
            fp@.max_prerequisites_deep == 20u8,
    {
        let mut toggles: Vec<(String, FPValue)> = Vec::new();
        toggles.push((String::from_str(toggle), value));
        let fp = FeatureProbe::new_for_tests(toggles);
        proof {
            assert(fp@.repo.toggles =~= seq![
                (toggle@, crate::evaluate::spec_test_toggle(toggle@, value@)),
            ]);
        }
        fp
    }

    /// A client holding one always-on toggle per pair, each serving its
    /// value.
    pub fn new_for_tests(toggles: Vec<(String, FPValue)>) -> (fp: FeatureProbe)
        ensures
            fp@.repo.toggles == Seq::new(
                toggles@.len(),
                |i: int|
                    (
                        toggles@[i].0@,
                        crate::evaluate::spec_test_toggle(toggles@[i].0@, toggles@[i].1@),
                    ),
            ),
            fp@.repo.segments.len() == 0,
            fp@.repo.events is None,
            fp@.repo.version == Some(0u128),
            fp@.repo.debug_until_time is None,
            fp@.max_prerequisites_deep == 20u8,
    {
        let mut repo = Repository::new();
        let n = toggles.len();
        let mut i: usize = 0;
        while i < n
            invariant
                i <= n,
                n == toggles@.len(),
                repo@.toggles.len() == i,
                forall|j: int|
                    0 <= j < i ==> #[trigger] repo@.toggles[j] == (
                        toggles@[j].0@,
                        crate::evaluate::spec_test_toggle(toggles@[j].0@, toggles@[j].1@),
                    ),
                repo@.segments.len() == 0,
                repo@.events is None,
                repo@.version == Some(0u128),
                repo@.debug_until_time is None,
            decreases n - i,
        {
            let key = toggles[i].0.clone();
            let val = toggles[i].1.clone();
            let key2 = key.clone();
            let ghost pre = repo.toggles@;
            let entry = Toggle::new_for_test(key2, val);
            repo.toggles.push((key, entry));
            proof {
                assert(repo.toggles@ == pre.push((key, entry)));
                assert forall|j: int| 0 <= j <= i implies #[trigger] repo@.toggles[j] == (
                    toggles@[j].0@,
                    crate::evaluate::spec_test_toggle(toggles@[j].0@, toggles@[j].1@),
                ) by {
                    assert(repo@.toggles[j] == (repo.toggles@[j].0@, repo.toggles@[j].1@));
                    if j < i {
                        assert(repo.toggles@[j] == pre[j]);
                        assert(toggles_view(pre)[j] == (pre[j].0@, pre[j].1@));
                    } else {
                        assert(repo.toggles@[j] == (key, entry));
                        assert(key@ == toggles@[j].0@);
                        assert(entry@ == crate::evaluate::spec_test_toggle(
                            toggles@[j].0@,
                            toggles@[j].1@,
                        ));
                    }
                }
            }
            i += 1;
        }
        let fp = FeatureProbe { repo, server_sdk_key: String::new(), max_prerequisites_deep: 20 };
        proof {
            assert(fp@.repo.toggles =~= Seq::new(
                toggles@.len(),
                |i: int|
                    (
                        toggles@[i].0@,
                        crate::evaluate::spec_test_toggle(toggles@[i].0@, toggles@[i].1@),
                    ),
            ));
        }
        fp
    }

    /// The cached repository.
    pub fn repository(&self) -> (r: &Repository)
        ensures
            r@ == self@.repo,
    {
        &self.repo
    }

    /// The cached repository's version.
    pub fn version(&self) -> (r: Option<u128>)
        ensures
            r == self@.repo.version,
    {
        self.repo.version
    }

    /// Replaces the cached repository exactly when `fetched` is strictly
    /// newer, handing back the displaced snapshot.
    pub fn apply_fetch(&mut self, fetched: Repository) -> (r: Option<Repository>)
        ensures
            crate::sync::spec_version_newer(fetched@.version, old(self)@.repo.version) ==> {
                &&& final(self)@.repo == fetched@
                &&& r matches Some(prev) && prev@ == old(self)@.repo
            },
            !crate::sync::spec_version_newer(fetched@.version, old(self)@.repo.version) ==> {
                &&& final(self)@.repo == old(self)@.repo
                &&& r is None
            },
            final(self)@.server_sdk_key == old(self)@.server_sdk_key,
            final(self)@.max_prerequisites_deep == old(self)@.max_prerequisites_deep,
    {
        crate::sync::apply_fetch(&mut self.repo, fetched)
    }

    /// Evaluates a named toggle at `now` epoch seconds; nothing when the key
    /// is not in the repository.
    pub fn eval_at(&self, toggle: &str, user: &FPUser, is_detail: bool, now: u128) -> (r: Option<
        EvalDetail<FPValue>,
    >)
        ensures
            match r {
                Some(d) => spec_probe_eval(
                    self@.repo,
                    toggle@,
                    user@,
                    is_detail,
                    self@.max_prerequisites_deep as nat,
                    now,
                ) == Some(d@),
                None => spec_probe_eval(
                    self@.repo,
                    toggle@,
                    user@,
                    is_detail,
                    self@.max_prerequisites_deep as nat,
                    now,
                ) is None,
            },
    {
        let ghost togs = toggles_view(self.repo.toggles@);
        proof {
            let raw = raw_view(self.repo.toggles@);
            assert forall|j: int| 0 <= j < raw.len() implies #[trigger] togs[j] == (
                raw[j].0,
                (|t: Toggle| t@)(raw[j].1),
            ) by {
                assert(raw[j] == (self.repo.toggles@[j].0@, self.repo.toggles@[j].1));
                assert(togs[j] == (self.repo.toggles@[j].0@, self.repo.toggles@[j].1@));
            }
            lemma_table_get_rel(raw, togs, |t: Toggle| t@, toggle@);
        }
        let t = match table_find(&self.repo.toggles, toggle) {
            None => {
                return None;
            },
            Some(t) => t,
        };
        let debug_until_time = self.repo.debug_until_time;
        let d = t.eval_at(
            user,
            &self.repo.segments,
            &self.repo.toggles,
            is_detail,
            self.max_prerequisites_deep,
            debug_until_time,
            now,
        );
        Some(d)
    }

    /// Evaluates a named toggle at the current time.
    pub fn eval(&self, toggle: &str, user: &FPUser, is_detail: bool) -> (r: Option<
        EvalDetail<FPValue>,
    >)
        ensures
            exists|now: u128|
                match r {
                    Some(d) => spec_probe_eval(
                        self@.repo,
                        toggle@,
                        user@,
                        is_detail,
                        self@.max_prerequisites_deep as nat,
                        now,
                    ) == Some(d@),
                    None => spec_probe_eval(
                        self@.repo,
                        toggle@,
                        user@,
                        is_detail,
                        self@.max_prerequisites_deep as nat,
                        now,
                    ) is None,
                },
    {
        let now = crate::unix_timestamp() / 1000;
        let r = self.eval_at(toggle, user, is_detail, now);
        proof {
            assert(match r {
                Some(d) => spec_probe_eval(
                    self@.repo,
                    toggle@,
                    user@,
                    is_detail,
                    self@.max_prerequisites_deep as nat,
                    now,
                ) == Some(d@),
                None => spec_probe_eval(
                    self@.repo,
                    toggle@,
                    user@,
                    is_detail,
                    self@.max_prerequisites_deep as nat,
                    now,
                ) is None,
            });
        }
        r
    }
}


/// The outcome of a typed getter: the value handed to the caller and the
/// diagnostic fields beside it.
pub struct TypedOutcome<TV> {
    /// The value served, or the caller-supplied default.
    pub value: TV,
    /// The index of the rule that served, if one did.
    pub rule_index: Option<usize>,
    /// The index of the variation served, if one was resolved.
    pub variation_index: Option<usize>,
    /// The version of the toggle evaluated.
    pub version: Option<u64>,
    /// Why this value was served.
    pub reason: Seq<char>,
}

/// What a typed getter yields from one evaluation: the default with a
/// `not exist` reason for an unknown key, the default with the evaluation's
/// own reason when no value was served, the default with a type-mismatch
/// reason when the value cannot be cast, and the cast value otherwise.
pub open spec fn spec_typed<TV>(
    d: Option<DetailModel>,
    toggle: Seq<char>,
    default: TV,
    cast: spec_fn(ValueModel) -> Option<TV>,
) -> TypedOutcome<TV> {
    match d {
        None => TypedOutcome {
            value: default,
            rule_index: None,
            variation_index: None,
            version: None,
            reason: spec_not_exist_reason(toggle),
        },
        Some(dm) => match dm.value {
            None => TypedOutcome {
                value: default,
                rule_index: dm.rule_index,
                variation_index: dm.variation_index,
                version: dm.version,
                reason: dm.reason,
            },
            Some(v) => match cast(v) {
                None => TypedOutcome {
                    value: default,
                    rule_index: dm.rule_index,
                    variation_index: dm.variation_index,
                    version: dm.version,
                    reason: spec_mismatch_reason(),
                },
                Some(tv) => TypedOutcome {
                    value: tv,
                    rule_index: dm.rule_index,
                    variation_index: dm.variation_index,
                    version: dm.version,
                    reason: dm.reason,
                },
            },
        },
    }
}

/// The boolean a value holds, if it is one.
pub open spec fn spec_bool_of(v: ValueModel) -> Option<bool> {
    match v {
        ValueModel::Bool(b) => Some(b),
        _ => None,
    }
}

/// The characters a string value holds, if it is one.
pub open spec fn spec_str_of(v: ValueModel) -> Option<Seq<char>> {
    match v {
        ValueModel::Str(s) => Some(s),
        _ => None,
    }
}

/// Whether `r` reports exactly the outcome `out`.
pub open spec fn detail_matches<T, TV>(
    r: FPDetail<T>,
    value_ok: bool,
    out_reason: Seq<char>,
    out: TypedOutcome<TV>,
) -> bool {
    &&& value_ok
    &&& r.rule_index == out.rule_index
    &&& r.variation_index == out.variation_index
    &&& r.version == out.version
    &&& out_reason == out.reason
}


/// The outcome of the boolean getter, as a function of the client, the call
/// and the time.
pub open spec fn spec_bool_outcome(
    p: ProbeModel,
    toggle: Seq<char>,
    user: crate::user::UserModel,
    is_detail: bool,
    now: u128,
    default: bool,
) -> TypedOutcome<bool> {
    spec_typed(
        spec_probe_eval(p.repo, toggle, user, is_detail, p.max_prerequisites_deep as nat, now),
        toggle,
        default,
        |v: ValueModel| spec_bool_of(v),
    )
}

/// The outcome of the string getter.
pub open spec fn spec_string_outcome(
    p: ProbeModel,
    toggle: Seq<char>,
    user: crate::user::UserModel,
    is_detail: bool,
    now: u128,
    default: Seq<char>,
) -> TypedOutcome<Seq<char>> {
    spec_typed(
        spec_probe_eval(p.repo, toggle, user, is_detail, p.max_prerequisites_deep as nat, now),
        toggle,
        default,
        |v: ValueModel| spec_str_of(v),
    )
}

/// The outcome of the JSON getter.
pub open spec fn spec_json_outcome(
    p: ProbeModel,
    toggle: Seq<char>,
    user: crate::user::UserModel,
    is_detail: bool,
    now: u128,
    default: ValueModel,
) -> TypedOutcome<ValueModel> {
    spec_typed(
        spec_probe_eval(p.repo, toggle, user, is_detail, p.max_prerequisites_deep as nat, now),
        toggle,
        default,
        |v: ValueModel| Some(v),
    )
}

impl FeatureProbe {
    /// The boolean getter at `now` epoch seconds.
    pub fn bool_eval_at(
        &self,
        toggle: &str,
        user: &FPUser,
        default: bool,
        is_detail: bool,
        now: u128,
    ) -> (r: FPDetail<bool>)
        ensures
            ({
                let out = spec_bool_outcome(self@, toggle@, user@, is_detail, now, default);
                detail_matches(r, r.value == out.value, r.reason@, out)
            }),
    {
        match self.eval_at(toggle, user, is_detail, now) {
            None => FPDetail {
                value: default,
                rule_index: None,
                variation_index: None,
                version: None,
                reason: not_exist_reason(toggle),
            },
            Some(d) => {
                let value_opt = match &d.value {
                    Some(v) => v.as_bool(),
                    None => None,
                };
                match (value_opt, d.value) {
                    (Some(b), _) => FPDetail {
                        value: b,
                        rule_index: d.rule_index,
                        variation_index: d.variation_index,
                        version: d.version,
                        reason: d.reason,
                    },
                    (None, Some(_)) => FPDetail {
                        value: default,
                        rule_index: d.rule_index,
                        variation_index: d.variation_index,
                        version: d.version,
                        reason: String::from_str("Value type mismatch."),
                    },
                    (None, None) => FPDetail {
                        value: default,
                        rule_index: d.rule_index,
                        variation_index: d.variation_index,
                        version: d.version,
                        reason: d.reason,
                    },
                }
            },
        }
    }

    /// The string getter at `now` epoch seconds.
    pub fn string_eval_at(
        &self,
        toggle: &str,
        user: &FPUser,
        default: String,
        is_detail: bool,
        now: u128,
    ) -> (r: FPDetail<String>)
        ensures
            ({
                let out = spec_string_outcome(self@, toggle@, user@, is_detail, now, default@);
                detail_matches(r, r.value@ == out.value, r.reason@, out)
            }),
    {
        match self.eval_at(toggle, user, is_detail, now) {
            None => FPDetail {
                value: default,
                rule_index: None,
                variation_index: None,
                version: None,
                reason: not_exist_reason(toggle),
            },
            Some(d) => match &d.value {
                Some(v) => match v.as_str() {
                    Some(s) => FPDetail {
                        value: s.clone(),
                        rule_index: d.rule_index,
                        variation_index: d.variation_index,
                        version: d.version,
                        reason: d.reason.clone(),
                    },
                    None => FPDetail {
                        value: default,
                        rule_index: d.rule_index,
                        variation_index: d.variation_index,
                        version: d.version,
                        reason: String::from_str("Value type mismatch."),
                    },
                },
                None => FPDetail {
                    value: default,
                    rule_index: d.rule_index,
                    variation_index: d.variation_index,
                    version: d.version,
                    reason: d.reason.clone(),
                },
            },
        }
    }

    /// The JSON getter at `now` epoch seconds; every served value casts.
    pub fn json_eval_at(
        &self,
        toggle: &str,
        user: &FPUser,
        default: FPValue,
        is_detail: bool,
        now: u128,
    ) -> (r: FPDetail<FPValue>)
        ensures
            ({
                let out = spec_json_outcome(self@, toggle@, user@, is_detail, now, default@);
                detail_matches(r, r.value@ == out.value, r.reason@, out)
            }),
    {
        match self.eval_at(toggle, user, is_detail, now) {
            None => FPDetail {
                value: default,
                rule_index: None,
                variation_index: None,
                version: None,
                reason: not_exist_reason(toggle),
            },
            Some(d) => match d.value {
                Some(v) => FPDetail {
                    value: v,
                    rule_index: d.rule_index,
                    variation_index: d.variation_index,
                    version: d.version,
                    reason: d.reason,
                },
                None => FPDetail {
                    value: default,
                    rule_index: d.rule_index,
                    variation_index: d.variation_index,
                    version: d.version,
                    reason: d.reason,
                },
            },
        }
    }

    /// The boolean a toggle serves, or the default.
    pub fn bool_value(&self, toggle: &str, user: &FPUser, default: bool) -> (r: bool)
        ensures
            exists|now: u128|
                r == (#[trigger] spec_bool_outcome(self@, toggle@, user@, false, now, default)).value,
    {
        let now = crate::unix_timestamp() / 1000;
        self.bool_eval_at(toggle, user, default, false, now).value
    }

    /// The boolean a toggle serves, with full diagnostics.
    pub fn bool_detail(&self, toggle: &str, user: &FPUser, default: bool) -> (r: FPDetail<bool>)
        ensures
            exists|now: u128|
                ({
                    let out = #[trigger] spec_bool_outcome(self@, toggle@, user@, true, now, default);
                    detail_matches(r, r.value == out.value, r.reason@, out)
                }),
    {
        let now = crate::unix_timestamp() / 1000;
        self.bool_eval_at(toggle, user, default, true, now)
    }

    /// The string a toggle serves, or the default.
    pub fn string_value(&self, toggle: &str, user: &FPUser, default: String) -> (r: String)
        ensures
            exists|now: u128|
                r@ == (#[trigger] spec_string_outcome(self@, toggle@, user@, false, now, default@)).value,
    {
        let now = crate::unix_timestamp() / 1000;
        self.string_eval_at(toggle, user, default, false, now).value
    }

    /// The string a toggle serves, with full diagnostics.
    pub fn string_detail(&self, toggle: &str, user: &FPUser, default: String) -> (r: FPDetail<
        String,
    >)
        ensures
            exists|now: u128|
                ({
                    let out = #[trigger] spec_string_outcome(self@, toggle@, user@, true, now, default@);
                    detail_matches(r, r.value@ == out.value, r.reason@, out)
                }),
    {
        let now = crate::unix_timestamp() / 1000;
        self.string_eval_at(toggle, user, default, true, now)
    }

    /// The JSON value a toggle serves, or the default.
    pub fn json_value(&self, toggle: &str, user: &FPUser, default: FPValue) -> (r: FPValue)
        ensures
            exists|now: u128|
                r@ == (#[trigger] spec_json_outcome(self@, toggle@, user@, false, now, default@)).value,
    {
        let now = crate::unix_timestamp() / 1000;
        self.json_eval_at(toggle, user, default, false, now).value
    }

    /// The JSON value a toggle serves, with full diagnostics.
    pub fn json_detail(&self, toggle: &str, user: &FPUser, default: FPValue) -> (r: FPDetail<
        FPValue,
    >)
        ensures
            exists|now: u128|
                ({
                    let out = #[trigger] spec_json_outcome(self@, toggle@, user@, true, now, default@);
                    detail_matches(r, r.value@ == out.value, r.reason@, out)
                }),
    {
        let now = crate::unix_timestamp() / 1000;
        self.json_eval_at(toggle, user, default, true, now)
    }
}

/// The reason reported for a toggle key that is not in the repository.
fn not_exist_reason(toggle: &str) -> (r: String)
    ensures
        r@ == spec_not_exist_reason(toggle@),
{
    String::from_str("Toggle:[").concat(toggle).concat("] not exist")
}

/// An unknown toggle key always falls back to the caller-supplied default,
/// with a reason naming the key and saying it does not exist; a served value
/// that cannot be cast to the requested type falls back to the default with
/// a type-mismatch reason.
pub proof fn lemma_default_fallback<TV>(
    repo: RepositoryModel,
    toggle: Seq<char>,
    user: crate::user::UserModel,
    is_detail: bool,
    depth: nat,
    now: u128,
    default: TV,
    cast: spec_fn(ValueModel) -> Option<TV>,
)
    ensures
        table_get(repo.toggles, toggle) is None ==> spec_typed(
            spec_probe_eval(repo, toggle, user, is_detail, depth, now),
            toggle,
            default,
            cast,
        ) == (TypedOutcome {
            value: default,
            rule_index: None,
            variation_index: None,
            version: None,
            reason: spec_not_exist_reason(toggle),
        }),
        ({
            let d = spec_probe_eval(repo, toggle, user, is_detail, depth, now);
            d matches Some(dm) && dm.value matches Some(v) && cast(v) is None
                ==> spec_typed(d, toggle, default, cast).value == default && spec_typed(
                d,
                toggle,
                default,
                cast,
            ).reason == spec_mismatch_reason()
        }),
{
}

} // verus!

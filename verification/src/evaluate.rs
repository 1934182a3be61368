//! The toggle evaluation engine: serves, percentage distributions, rules,
//! prerequisites, and the repository that holds them.

use vstd::prelude::*;
use vstd::string::StringExecFns;

use crate::cond::{segments_view, spec_meet, Condition, ConditionModel, Segment, SegmentModel};
use crate::hash::{salt_hash, spec_salt_hash};
use crate::strings::{dec_str, usize_to_string};
use crate::table::{lemma_table_get_rel, raw_view, table_find, table_get};
use crate::user::{FPUser, UserModel};
use crate::value::{FPValue, ValueModel};
use crate::{ErrorModel, FPError, PrereqErrorModel, PrerequisiteError};

verus! {

/// A resolution strategy for "which variation": a fixed selection or a
/// percentage split.
#[derive(Clone)]
pub enum Serve {
    /// Always the variation at this index.
    Select(usize),
    /// The variation the user's hash bucket falls into.
    Split(Distribution),
}

/// What a [`Serve`] denotes.
pub enum ServeModel {
    /// Always the variation at this index.
    Select(usize),
    /// The variation the user's hash bucket falls into.
    Split(DistributionModel),
}

impl View for Serve {
    type V = ServeModel;

    open spec fn view(&self) -> ServeModel {
        match self {
            Serve::Select(i) => ServeModel::Select(*i),
            Serve::Split(d) => ServeModel::Split(d@),
        }
    }
}

/// A resolved variation: its payload and its index.
#[derive(Debug)]
pub struct Variation {
    /// The payload served.
    pub value: FPValue,
    /// The index of the variation in the toggle's list.
    pub index: usize,
}

/// A percentage rollout: each variation owns a set of half-open bucket
/// ranges over `[0, 10000)`.
#[derive(Clone)]
pub struct Distribution {
    /// `distribution[i]` is the set of `[lower, upper)` ranges of variation
    /// `i`.
    pub distribution: Vec<Vec<(u32, u32)>>,
    /// The user attribute hashed instead of the rollout key, if set.
    pub bucket_by: Option<String>,
    /// The salt mixed into the hash; when absent or empty, the toggle key.
    pub salt: Option<String>,
}

/// What a [`Distribution`] denotes.
pub struct DistributionModel {
    /// The bucket ranges of each variation.
    pub ranges: Seq<Seq<(u32, u32)>>,
    /// The user attribute hashed instead of the rollout key, if set.
    pub bucket_by: Option<Seq<char>>,
    /// The salt mixed into the hash; when absent or empty, the toggle key.
    pub salt: Option<Seq<char>>,
}

impl View for Distribution {
    type V = DistributionModel;

    open spec fn view(&self) -> DistributionModel {
        DistributionModel {
            ranges: Seq::new(self.distribution@.len(), |i: int| self.distribution@[i]@),
            bucket_by: match self.bucket_by {
                Some(ref s) => Some(s@),
                None => None,
            },
            salt: match self.salt {
                Some(ref s) => Some(s@),
                None => None,
            },
        }
    }
}

/// An ordered, conditionally-applied serve strategy within a toggle.
#[derive(Clone)]
pub struct Rule {
    /// The serve applied when every condition matches.
    pub serve: Serve,
    /// The conditions, all of which must hold.
    pub conditions: Vec<Condition>,
}

/// What a [`Rule`] denotes.
pub struct RuleModel {
    /// The serve applied when every condition matches.
    pub serve: ServeModel,
    /// The conditions, all of which must hold.
    pub conditions: Seq<ConditionModel>,
}

impl View for Rule {
    type V = RuleModel;

    open spec fn view(&self) -> RuleModel {
        RuleModel {
            serve: self.serve@,
            conditions: Seq::new(self.conditions@.len(), |i: int| self.conditions@[i]@),
        }
    }
}

/// A dependency on another toggle's resolved value.
#[derive(Clone)]
pub struct Prerequisites {
    /// The key of the toggle depended on.
    pub key: String,
    /// The value that toggle must evaluate to.
    pub value: FPValue,
}

/// What a [`Prerequisites`] entry denotes.
pub struct PrereqModel {
    /// The key of the toggle depended on.
    pub key: Seq<char>,
    /// The value that toggle must evaluate to.
    pub value: ValueModel,
}

impl View for Prerequisites {
    type V = PrereqModel;

    open spec fn view(&self) -> PrereqModel {
        PrereqModel { key: self.key@, value: self.value@ }
    }
}

/// The full diagnostic result of one evaluation.
pub struct EvalDetail<T> {
    /// The value served; absent on a serve-resolution failure.
    pub value: Option<T>,
    /// The index of the rule that served, if one did.
    pub rule_index: Option<usize>,
    /// Whether accesses to the toggle are recorded.
    pub track_access_events: Option<bool>,
    /// Until when debug events are recorded.
    pub debug_until_time: Option<u64>,
    /// When the toggle was last modified.
    pub last_modified: Option<u64>,
    /// The index of the variation served, if one was resolved.
    pub variation_index: Option<usize>,
    /// The toggle's version.
    pub version: Option<u64>,
    /// Why this value was served.
    pub reason: String,
}

/// What an [`EvalDetail`] over toggle payloads denotes.
pub struct DetailModel {
    /// The value served; absent on a serve-resolution failure.
    pub value: Option<ValueModel>,
    /// The index of the rule that served, if one did.
    pub rule_index: Option<usize>,
    /// Whether accesses to the toggle are recorded.
    pub track_access_events: Option<bool>,
    /// Until when debug events are recorded.
    pub debug_until_time: Option<u64>,
    /// When the toggle was last modified.
    pub last_modified: Option<u64>,
    /// The index of the variation served, if one was resolved.
    pub variation_index: Option<usize>,
    /// The toggle's version.
    pub version: Option<u64>,
    /// Why this value was served.
    pub reason: Seq<char>,
}

impl View for EvalDetail<FPValue> {
    type V = DetailModel;

    open spec fn view(&self) -> DetailModel {
        DetailModel {
            value: match self.value {
                Some(ref v) => Some(v@),
                None => None,
            },
            rule_index: self.rule_index,
            track_access_events: self.track_access_events,
            debug_until_time: self.debug_until_time,
            last_modified: self.last_modified,
            variation_index: self.variation_index,
            version: self.version,
            reason: self.reason@,
        }
    }
}

/// A named feature flag with rules, variations, and enable/disable state.
#[derive(Clone)]
pub struct Toggle {
    /// The toggle's key.
    pub key: String,
    /// Whether the toggle is enabled; a disabled toggle always serves its
    /// disabled serve.
    pub enabled: bool,
    /// Whether accesses to the toggle are recorded.
    pub track_access_events: Option<bool>,
    /// When the toggle was last modified.
    pub last_modified: Option<u64>,
    /// The toggle's version.
    pub version: u64,
    /// Whether the toggle is delivered to client-side SDKs.
    pub for_client: bool,
    /// The serve used while disabled or when a prerequisite fails.
    pub disabled_serve: Serve,
    /// The serve used when no rule matches.
    pub default_serve: Serve,
    /// The rules, scanned in order; the first full match serves.
    pub rules: Vec<Rule>,
    /// The possible payloads, addressed by index.
    pub variations: Vec<FPValue>,
    /// Dependencies on other toggles' resolved values.
    pub prerequisites: Option<Vec<Prerequisites>>,
}

/// What a [`Toggle`] denotes.
pub struct ToggleModel {
    /// The toggle's key.
    pub key: Seq<char>,
    /// Whether the toggle is enabled.
    pub enabled: bool,
    /// Whether accesses to the toggle are recorded.
    pub track_access_events: Option<bool>,
    /// When the toggle was last modified.
    pub last_modified: Option<u64>,
    /// The toggle's version.
    pub version: u64,
    /// Whether the toggle is delivered to client-side SDKs.
    pub for_client: bool,
    /// The serve used while disabled or when a prerequisite fails.
    pub disabled_serve: ServeModel,
    /// The serve used when no rule matches.
    pub default_serve: ServeModel,
    /// The rules, scanned in order.
    pub rules: Seq<RuleModel>,
    /// The possible payloads, addressed by index.
    pub variations: Seq<ValueModel>,
    /// Dependencies on other toggles' resolved values.
    pub prerequisites: Option<Seq<PrereqModel>>,
}

impl View for Toggle {
    type V = ToggleModel;

    open spec fn view(&self) -> ToggleModel {
        ToggleModel {
            key: self.key@,
            enabled: self.enabled,
            track_access_events: self.track_access_events,
            last_modified: self.last_modified,
            version: self.version,
            for_client: self.for_client,
            disabled_serve: self.disabled_serve@,
            default_serve: self.default_serve@,
            rules: Seq::new(self.rules@.len(), |i: int| self.rules@[i]@),
            variations: Seq::new(self.variations@.len(), |i: int| self.variations@[i]@),
            prerequisites: match self.prerequisites {
                Some(ref ps) => Some(Seq::new(ps@.len(), |i: int| ps@[i]@)),
                None => None,
            },
        }
    }
}

/// The models of a toggle table, keyed by toggle key.
pub open spec fn toggles_view(t: Seq<(String, Toggle)>) -> Seq<(Seq<char>, ToggleModel)> {
    Seq::new(t.len(), |i: int| (t[i].0@, t[i].1@))
}

/// The complete cached snapshot of segments, toggles and metadata, replaced
/// wholesale by the synchronizer and never mutated field by field.
#[derive(Clone)]
pub struct Repository {
    /// The segments, keyed by unique identifier, with unique keys.
    pub segments: Vec<(String, Segment)>,
    /// The toggles, keyed by toggle key, with unique keys.
    pub toggles: Vec<(String, Toggle)>,
    /// An opaque events payload carried alongside the definitions.
    pub events: Option<FPValue>,
    /// The repository version; newer fetches only replace strictly older
    /// caches.
    pub version: Option<u128>,
    /// Until when debug events are recorded.
    pub debug_until_time: Option<u64>,
}

/// What a [`Repository`] denotes.
pub struct RepositoryModel {
    /// The segments, keyed by unique identifier.
    pub segments: Seq<(Seq<char>, SegmentModel)>,
    /// The toggles, keyed by toggle key.
    pub toggles: Seq<(Seq<char>, ToggleModel)>,
    /// An opaque events payload.
    pub events: Option<ValueModel>,
    /// The repository version.
    pub version: Option<u128>,
    /// Until when debug events are recorded.
    pub debug_until_time: Option<u64>,
}

impl View for Repository {
    type V = RepositoryModel;

    open spec fn view(&self) -> RepositoryModel {
        RepositoryModel {
            segments: segments_view(self.segments@),
            toggles: toggles_view(self.toggles@),
            events: match self.events {
                Some(ref v) => Some(v@),
                None => None,
            },
            version: self.version,
            debug_until_time: self.debug_until_time,
        }
    }
}

impl Repository {
    /// An empty repository at version zero.
    pub fn new() -> (r: Repository)
        ensures
            r@.segments =~= Seq::<(Seq<char>, SegmentModel)>::empty(),
            r@.toggles =~= Seq::<(Seq<char>, ToggleModel)>::empty(),
            r@.events is None,
            r@.version == Some(0u128),
            r@.debug_until_time is None,
    {
        let r = Repository {
            segments: Vec::new(),
            toggles: Vec::new(),
            events: None,
            version: Some(0),
            debug_until_time: None,
        };
        proof {
            assert(r@.segments =~= Seq::<(Seq<char>, SegmentModel)>::empty());
            assert(r@.toggles =~= Seq::<(Seq<char>, ToggleModel)>::empty());
        }
        r
    }
}

/// The bucket count every distribution divides.
pub open spec fn bucket_count() -> u64 {
    10000
}

/// Whether `b` falls in any of the half-open ranges.
pub open spec fn bucket_in_ranges(ranges: Seq<(u32, u32)>, b: int) -> bool {
    exists|j: int| 0 <= j < ranges.len() && (#[trigger] ranges[j]).0 <= b < ranges[j].1
}

/// The first variation index whose ranges contain `b`, if any.
pub open spec fn spec_range_index(ranges: Seq<Seq<(u32, u32)>>, b: int) -> Option<int>
    decreases ranges.len(),
{
    if ranges.len() == 0 {
        None
    } else if bucket_in_ranges(ranges[0], b) {
        Some(0)
    } else {
        match spec_range_index(ranges.drop_first(), b) {
            Some(i) => Some(i + 1),
            None => None,
        }
    }
}

/// The hash key a distribution uses: the named attribute when `bucket_by` is
/// set (an error when the user lacks it), otherwise the rollout key.
pub open spec fn spec_hash_key(d: DistributionModel, user: UserModel, is_detail: bool) -> Result<
    Seq<char>,
    ErrorModel,
> {
    match d.bucket_by {
        None => Ok(user.key),
        Some(custom) => match table_get(user.attrs, custom) {
            Some(v) => Ok(v),
            None => {
                if is_detail {
                    Err(
                        ErrorModel::EvalDetailError(
                            "User with key:\""@ + user.key + "\" does not have attribute named: ["@
                                + custom + "]"@,
                        ),
                    )
                } else {
                    Err(ErrorModel::EvalError)
                }
            },
        },
    }
}

/// The salt a distribution hashes with: its own salt when present and
/// non-empty, else the toggle key.
pub open spec fn spec_salt_of(d: DistributionModel, key: Seq<char>) -> Seq<char> {
    match d.salt {
        Some(s) => if s.len() > 0 {
            s
        } else {
            key
        },
        None => key,
    }
}

/// The variation index a distribution yields: the bucket of the hash key
/// under the salt, looked up in the range table; a bucket in no range is an
/// error.
pub open spec fn spec_find_index(
    d: DistributionModel,
    key: Seq<char>,
    user: UserModel,
    is_detail: bool,
) -> Result<int, ErrorModel> {
    match spec_hash_key(d, user, is_detail) {
        Err(e) => Err(e),
        Ok(hk) => {
            let bucket = spec_salt_hash(hk, spec_salt_of(d, key), bucket_count());
            match spec_range_index(d.ranges, bucket) {
                Some(i) => Ok(i),
                None => {
                    if is_detail {
                        Err(ErrorModel::EvalDetailError("not find hash_bucket in distribution."@))
                    } else {
                        Err(ErrorModel::EvalError)
                    }
                },
            }
        },
    }
}

/// The variation a serve resolves to: its index (fixed or from the
/// distribution) and the payload at that index; an out-of-bounds index is an
/// error.
pub open spec fn spec_select_variation(
    serve: ServeModel,
    key: Seq<char>,
    user: UserModel,
    variations: Seq<ValueModel>,
    is_detail: bool,
) -> Result<(ValueModel, int), ErrorModel> {
    let index = match serve {
        ServeModel::Select(i) => Ok(i as int),
        ServeModel::Split(d) => spec_find_index(d, key, user, is_detail),
    };
    match index {
        Err(e) => Err(e),
        Ok(i) => {
            if 0 <= i < variations.len() {
                Ok((variations[i], i))
            } else if is_detail {
                Err(
                    ErrorModel::EvalDetailError(
                        "index "@ + dec_str(i as nat) + " overflow, variations count is "@
                            + dec_str(variations.len()),
                    ),
                )
            } else {
                Err(ErrorModel::EvalError)
            }
        },
    }
}

/// Whether every condition of the rule matches the user.
pub open spec fn spec_rule_matches(
    rule: RuleModel,
    user: UserModel,
    segments: Seq<(Seq<char>, SegmentModel)>,
    now: u128,
) -> bool {
    forall|i: int|
        0 <= i < rule.conditions.len() ==> spec_meet(
            #[trigger] rule.conditions[i],
            user,
            Some(segments),
            now,
        )
}

/// What a rule yields: nothing when its conditions do not all match, its
/// resolved serve when they do, and the serve's error when resolution fails.
pub open spec fn spec_rule_serve(
    rule: RuleModel,
    key: Seq<char>,
    user: UserModel,
    segments: Seq<(Seq<char>, SegmentModel)>,
    variations: Seq<ValueModel>,
    is_detail: bool,
    now: u128,
) -> Result<Option<(ValueModel, int)>, ErrorModel> {
    if spec_rule_matches(rule, user, segments, now) {
        match spec_select_variation(rule.serve, key, user, variations, is_detail) {
            Ok(v) => Ok(Some(v)),
            Err(e) => Err(e),
        }
    } else {
        Ok(None)
    }
}

/// A reason with a trailing period, or two reasons joined by a period and a
/// space.
pub open spec fn spec_concat_reason(reason1: Seq<char>, reason2: Option<Seq<char>>) -> Seq<char> {
    match reason2 {
        Some(r2) => reason1 + ". "@ + r2 + "."@,
        None => reason1 + "."@,
    }
}

/// The diagnostic rendering of an evaluation error, as it appears in reasons.
pub open spec fn spec_error_reason(e: ErrorModel) -> Seq<char> {
    match e {
        ErrorModel::JsonError(body, m) => "JsonError(\""@ + body + "\", \""@ + m + "\")"@,
        ErrorModel::UrlError(u) => "UrlError(\""@ + u + "\")"@,
        ErrorModel::HttpError(m) => "HttpError(\""@ + m + "\")"@,
        ErrorModel::EvalError => "EvalError"@,
        ErrorModel::EvalDetailError(m) => "EvalDetailError(\""@ + m + "\")"@,
        ErrorModel::InternalError(m) => "InternalError(\""@ + m + "\")"@,
    }
}

/// The diagnostic text of a prerequisite failure.
pub open spec fn spec_prereq_reason(e: PrereqErrorModel) -> Seq<char> {
    match e {
        PrereqErrorModel::DepthOverflow => "prerequisite depth overflow"@,
        PrereqErrorModel::NotExist(key) => key + " not exist"@,
    }
}

/// A detail carrying the given variation (or none), reason and rule index,
/// with the toggle's metadata.
pub open spec fn spec_serve_detail(
    t: ToggleModel,
    v: Option<(ValueModel, int)>,
    reason: Seq<char>,
    rule_index: Option<usize>,
    debug_until_time: Option<u64>,
) -> DetailModel {
    DetailModel {
        value: match v {
            Some(p) => Some(p.0),
            None => None,
        },
        variation_index: match v {
            Some(p) => Some(p.1 as usize),
            None => None,
        },
        version: Some(t.version),
        track_access_events: t.track_access_events,
        debug_until_time,
        last_modified: t.last_modified,
        rule_index,
        reason,
    }
}

/// The detail a fixed serve (disabled or default) produces: the resolved
/// variation under the given reason, or a no-value detail carrying the
/// resolution error.
pub open spec fn spec_fixed_detail(
    t: ToggleModel,
    serve: ServeModel,
    user: UserModel,
    default_reason: Seq<char>,
    reason: Option<Seq<char>>,
    is_detail: bool,
    debug_until_time: Option<u64>,
) -> DetailModel {
    match spec_select_variation(serve, t.key, user, t.variations, is_detail) {
        Ok(v) => spec_serve_detail(
            t,
            Some(v),
            spec_concat_reason(default_reason, reason),
            None,
            debug_until_time,
        ),
        Err(e) => spec_serve_detail(
            t,
            None,
            spec_concat_reason(spec_error_reason(e), reason),
            None,
            debug_until_time,
        ),
    }
}

/// The detail the disabled serve produces.
pub open spec fn spec_disabled_detail(
    t: ToggleModel,
    user: UserModel,
    reason: Option<Seq<char>>,
    is_detail: bool,
    debug_until_time: Option<u64>,
) -> DetailModel {
    spec_fixed_detail(t, t.disabled_serve, user, "disabled."@, reason, is_detail, debug_until_time)
}

/// The detail the default serve produces.
pub open spec fn spec_default_detail(
    t: ToggleModel,
    user: UserModel,
    reason: Option<Seq<char>>,
    is_detail: bool,
    debug_until_time: Option<u64>,
) -> DetailModel {
    spec_fixed_detail(t, t.default_serve, user, "default."@, reason, is_detail, debug_until_time)
}

/// The rule scan from rule `i` on: the first rule whose conditions all match
/// serves with reason `rule {i}.`; a serve-resolution failure on that rule
/// stops the scan with a no-value detail; if no rule matches, the default
/// serve decides.
pub open spec fn spec_scan_rules(
    t: ToggleModel,
    user: UserModel,
    segments: Seq<(Seq<char>, SegmentModel)>,
    is_detail: bool,
    debug_until_time: Option<u64>,
    now: u128,
    i: int,
) -> DetailModel
    decreases t.rules.len() - i,
{
    if i < 0 || i >= t.rules.len() {
        spec_default_detail(t, user, None, is_detail, debug_until_time)
    } else {
        match spec_rule_serve(t.rules[i], t.key, user, segments, t.variations, is_detail, now) {
            Ok(Some(v)) => spec_serve_detail(
                t,
                Some(v),
                "rule "@ + dec_str(i as nat) + "."@,
                Some(i as usize),
                debug_until_time,
            ),
            Ok(None) => spec_scan_rules(t, user, segments, is_detail, debug_until_time, now, i + 1),
            Err(e) => spec_serve_detail(
                t,
                None,
                spec_error_reason(e),
                Some(i as usize),
                debug_until_time,
            ),
        }
    }
}

/// What evaluating a toggle yields, or a prerequisite failure: a disabled
/// toggle serves its disabled serve with reason `disabled.`; unmet
/// prerequisites serve disabled with `Prerequisite not match`; otherwise the
/// rules are scanned in order.
pub open spec fn spec_do_eval(
    t: ToggleModel,
    user: UserModel,
    segments: Seq<(Seq<char>, SegmentModel)>,
    toggles: Seq<(Seq<char>, ToggleModel)>,
    is_detail: bool,
    depth: nat,
    debug_until_time: Option<u64>,
    now: u128,
) -> Result<DetailModel, PrereqErrorModel>
    decreases depth, 2int, 0int,
{
    if !t.enabled {
        Ok(spec_disabled_detail(t, user, None, is_detail, debug_until_time))
    } else {
        match spec_meet_prerequisite(t, user, segments, toggles, is_detail, depth, debug_until_time, now) {
            Err(e) => Err(e),
            Ok(false) => Ok(
                spec_disabled_detail(
                    t,
                    user,
                    Some("Prerequisite not match"@),
                    is_detail,
                    debug_until_time,
                ),
            ),
            Ok(true) => Ok(
                spec_scan_rules(t, user, segments, is_detail, debug_until_time, now, 0),
            ),
        }
    }
}

/// Whether the toggle's prerequisites are satisfied: each referenced toggle
/// must exist and evaluate (one level deeper) to the required value; an
/// exhausted depth or a missing reference is a failure, a value mismatch is
/// merely "not satisfied".
pub open spec fn spec_meet_prerequisite(
    t: ToggleModel,
    user: UserModel,
    segments: Seq<(Seq<char>, SegmentModel)>,
    toggles: Seq<(Seq<char>, ToggleModel)>,
    is_detail: bool,
    depth: nat,
    debug_until_time: Option<u64>,
    now: u128,
) -> Result<bool, PrereqErrorModel>
    decreases depth, 1int, 0int,
{
    if depth == 0 {
        Err(PrereqErrorModel::DepthOverflow)
    } else {
        match t.prerequisites {
            None => Ok(true),
            Some(ps) => spec_prereq_list(
                ps,
                user,
                segments,
                toggles,
                is_detail,
                depth,
                debug_until_time,
                now,
                0,
            ),
        }
    }
}

/// The prerequisite list from entry `i` on.
pub open spec fn spec_prereq_list(
    ps: Seq<PrereqModel>,
    user: UserModel,
    segments: Seq<(Seq<char>, SegmentModel)>,
    toggles: Seq<(Seq<char>, ToggleModel)>,
    is_detail: bool,
    depth: nat,
    debug_until_time: Option<u64>,
    now: u128,
    i: int,
) -> Result<bool, PrereqErrorModel>
    decreases depth, 0int, ps.len() - i,
{
    if depth == 0 {
        Err(PrereqErrorModel::DepthOverflow)
    } else if i < 0 || i >= ps.len() {
        Ok(true)
    } else {
        match table_get(toggles, ps[i].key) {
            None => Err(PrereqErrorModel::NotExist(ps[i].key)),
            Some(dep) => match spec_do_eval(
                dep,
                user,
                segments,
                toggles,
                is_detail,
                (depth - 1) as nat,
                debug_until_time,
                now,
            ) {
                Err(e) => Err(e),
                Ok(detail) => {
                    if detail.value matches Some(v) && v == ps[i].value {
                        spec_prereq_list(
                            ps,
                            user,
                            segments,
                            toggles,
                            is_detail,
                            depth,
                            debug_until_time,
                            now,
                            i + 1,
                        )
                    } else {
                        Ok(false)
                    }
                },
            },
        }
    }
}

/// What evaluating a toggle yields: a prerequisite failure folds into a
/// disabled-style detail carrying its diagnostic.
pub open spec fn spec_eval(
    t: ToggleModel,
    user: UserModel,
    segments: Seq<(Seq<char>, SegmentModel)>,
    toggles: Seq<(Seq<char>, ToggleModel)>,
    is_detail: bool,
    depth: nat,
    debug_until_time: Option<u64>,
    now: u128,
) -> DetailModel {
    match spec_do_eval(t, user, segments, toggles, is_detail, depth, debug_until_time, now) {
        Ok(d) => d,
        Err(e) => spec_disabled_detail(
            t,
            user,
            Some(spec_prereq_reason(e)),
            is_detail,
            debug_until_time,
        ),
    }
}

/// A reason with a trailing period, or two reasons joined by a period and a
/// space.
pub fn concat_reason(reason1: String, reason2: Option<String>) -> (r: String)
    ensures
        r@ == spec_concat_reason(
            reason1@,
            match reason2 {
                Some(s) => Some(s@),
                None => None,
            },
        ),
{
    match reason2 {
        Some(r2) => reason1.concat(". ").concat(r2.as_str()).concat("."),
        None => reason1.concat("."),
    }
}

impl FPError {
    /// The diagnostic rendering of this error as it appears in evaluation
    /// reasons.
    pub fn reason_text(&self) -> (r: String)
        ensures
            r@ == spec_error_reason(self@),
    {
        match self {
            FPError::JsonError(body, m) => String::from_str("JsonError(\"").concat(
                body.as_str(),
            ).concat("\", \"").concat(m.as_str()).concat("\")"),
            FPError::UrlError(u) => String::from_str("UrlError(\"").concat(u.as_str()).concat(
                "\")",
            ),
            FPError::HttpError(m) => String::from_str("HttpError(\"").concat(m.as_str()).concat(
                "\")",
            ),
            FPError::EvalError => String::from_str("EvalError"),
            FPError::EvalDetailError(m) => String::from_str("EvalDetailError(\"").concat(
                m.as_str(),
            ).concat("\")"),
            FPError::InternalError(m) => String::from_str("InternalError(\"").concat(
                m.as_str(),
            ).concat("\")"),
        }
    }
}

impl Serve {
    /// Resolves this serve against the variations: the fixed or
    /// distribution-chosen index and the payload there.
    pub fn select_variation(
        &self,
        key: &str,
        is_detail: bool,
        user: &FPUser,
        variations: &Vec<FPValue>,
    ) -> (r: Result<Variation, FPError>)
        ensures
            match r {
                Ok(v) => spec_select_variation(
                    self@,
                    key@,
                    user@,
                    crate::value::values_view(variations@),
                    is_detail,
                ) == Ok::<(ValueModel, int), ErrorModel>((v.value@, v.index as int)),
                Err(e) => spec_select_variation(
                    self@,
                    key@,
                    user@,
                    crate::value::values_view(variations@),
                    is_detail,
                ) == Err::<(ValueModel, int), ErrorModel>(e@),
            },
    {
        let ghost vv = crate::value::values_view(variations@);
        proof {
            assert(vv.len() == variations@.len());
            assert(forall|i: int| 0 <= i < vv.len() ==> vv[i] == variations@[i]@);
        }
        let index: usize = match self {
            Serve::Select(i) => *i,
            Serve::Split(distribution) => {
                match distribution.find_index(key, is_detail, user) {
                    Ok(i) => i,
                    Err(e) => {
                        return Err(e);
                    },
                }
            },
        };
        if index < variations.len() {
            let value = variations[index].clone();
            Ok(Variation { value, index })
        } else if is_detail {
            let msg = String::from_str("index ").concat(usize_to_string(index).as_str()).concat(
                " overflow, variations count is ",
            ).concat(usize_to_string(variations.len()).as_str());
            Err(FPError::EvalDetailError(msg))
        } else {
            Err(FPError::EvalError)
        }
    }
}

impl Distribution {
    /// The variation index the user's bucket falls into.
    #[verifier::loop_isolation(false)]
    pub fn find_index(&self, key: &str, is_detail: bool, user: &FPUser) -> (r: Result<
        usize,
        FPError,
    >)
        ensures
            match r {
                Ok(i) => spec_find_index(self@, key@, user@, is_detail) == Ok::<int, ErrorModel>(
                    i as int,
                ),
                Err(e) => spec_find_index(self@, key@, user@, is_detail) == Err::<int, ErrorModel>(
                    e@,
                ),
            },
    {
        let hash_key: String = match &self.bucket_by {
            None => user.key(),
            Some(custom_key) => {
                match user.get(custom_key.as_str()) {
                    None => {
                        if is_detail {
                            let msg = String::from_str("User with key:\"").concat(
                                user.key().as_str(),
                            ).concat("\" does not have attribute named: [").concat(
                                custom_key.as_str(),
                            ).concat("]");
                            return Err(FPError::EvalDetailError(msg));
                        } else {
                            return Err(FPError::EvalError);
                        }
                    },
                    Some(value) => value.clone(),
                }
            },
        };
        let salt: &str = match &self.salt {
            Some(s) => {
                if !s.as_str().is_empty() {
                    s.as_str()
                } else {
                    key
                }
            },
            None => key,
        };
        proof {
            assert(salt@ == spec_salt_of(self@, key@));
            assert(hash_key@ == spec_hash_key(self@, user@, is_detail)->Ok_0);
        }
        let bucket_index = salt_hash(hash_key.as_str(), salt, 10000);
        let n = self.distribution.len();
        proof {
            assert(self@.ranges.skip(0) =~= self@.ranges);
        }
        let mut i: usize = 0;
        while i < n
            invariant
                i <= n,
                spec_range_index(self@.ranges, bucket_index as int) == match spec_range_index(
                    self@.ranges.skip(i as int),
                    bucket_index as int,
                ) {
                    Some(j) => Some(j + i),
                    None => None::<int>,
                },
            decreases n - i,
        {
            let ranges = &self.distribution[i];
            let m = ranges.len();
            let mut j: usize = 0;
            let mut found = false;
            while j < m
                invariant
                    j <= m,
                    found == exists|k: int|
                        0 <= k < j && (#[trigger] ranges@[k]).0 <= bucket_index < ranges@[k].1,
                decreases m - j,
            {
                let (lower, upper) = ranges[j];
                if lower <= bucket_index && bucket_index < upper {
                    found = true;
                }
                j += 1;
            }
            proof {
                assert(self@.ranges[i as int] == self.distribution@[i as int]@);
                assert(found == bucket_in_ranges(self@.ranges[i as int], bucket_index as int));
                assert(self@.ranges.skip(i as int)[0] == self@.ranges[i as int]);
            }
            if found {
                return Ok(i);
            }
            proof {
                assert(self@.ranges.skip(i as int).drop_first() =~= self@.ranges.skip(i + 1));
            }
            i += 1;
        }
        proof {
            assert(self@.ranges.skip(n as int).len() == 0);
        }
        if is_detail {
            Err(FPError::EvalDetailError(String::from_str("not find hash_bucket in distribution.")))
        } else {
            Err(FPError::EvalError)
        }
    }
}


impl Rule {
    /// What this rule yields for the user: nothing unless every condition
    /// matches, then its resolved serve.
    #[verifier::loop_isolation(false)]
    pub fn serve_variation(
        &self,
        key: &str,
        is_detail: bool,
        user: &FPUser,
        variations: &Vec<FPValue>,
        segment_repo: &Vec<(String, Segment)>,
        now: u128,
    ) -> (r: Result<Option<Variation>, FPError>)
        ensures
            match r {
                Ok(Some(v)) => spec_rule_serve(
                    self@,
                    key@,
                    user@,
                    segments_view(segment_repo@),
                    crate::value::values_view(variations@),
                    is_detail,
                    now,
                ) == Ok::<Option<(ValueModel, int)>, ErrorModel>(Some((v.value@, v.index as int))),
                Ok(None) => spec_rule_serve(
                    self@,
                    key@,
                    user@,
                    segments_view(segment_repo@),
                    crate::value::values_view(variations@),
                    is_detail,
                    now,
                ) == Ok::<Option<(ValueModel, int)>, ErrorModel>(None),
                Err(e) => spec_rule_serve(
                    self@,
                    key@,
                    user@,
                    segments_view(segment_repo@),
                    crate::value::values_view(variations@),
                    is_detail,
                    now,
                ) == Err::<Option<(ValueModel, int)>, ErrorModel>(e@),
            },
    {
        let ghost segs = segments_view(segment_repo@);
        let n = self.conditions.len();
        let mut i: usize = 0;
        while i < n
            invariant
                i <= n,
                forall|j: int|
                    0 <= j < i ==> spec_meet(#[trigger] self@.conditions[j], user@, Some(segs), now),
            decreases n - i,
        {
            proof {
                assert(self@.conditions[i as int] == self.conditions@[i as int]@);
            }
            if !self.conditions[i].meet_at(user, Some(segment_repo), now) {
                proof {
                    assert(!spec_rule_matches(self@, user@, segs, now));
                }
                return Ok(None);
            }
            i += 1;
        }
        proof {
            assert(spec_rule_matches(self@, user@, segs, now));
        }
        match self.serve.select_variation(key, is_detail, user, variations) {
            Ok(v) => Ok(Some(v)),
            Err(e) => Err(e),
        }
    }
}

impl Toggle {
    /// A detail carrying the given variation (or none), reason and rule
    /// index, with this toggle's metadata.
    pub fn serve_variation(
        &self,
        v: Option<Variation>,
        reason: String,
        rule_index: Option<usize>,
        debug_until_time: Option<u64>,
    ) -> (r: EvalDetail<FPValue>)
        ensures
            r@ == spec_serve_detail(
                self@,
                match v {
                    Some(ref var) => Some((var.value@, var.index as int)),
                    None => None,
                },
                reason@,
                rule_index,
                debug_until_time,
            ),
    {
        match v {
            Some(var) => EvalDetail {
                variation_index: Some(var.index),
                value: Some(var.value),
                version: Some(self.version),
                track_access_events: self.track_access_events,
                debug_until_time,
                last_modified: self.last_modified,
                rule_index,
                reason,
            },
            None => EvalDetail {
                variation_index: None,
                value: None,
                version: Some(self.version),
                track_access_events: self.track_access_events,
                debug_until_time,
                last_modified: self.last_modified,
                rule_index,
                reason,
            },
        }
    }

    /// The detail a fixed serve produces: the resolved variation under the
    /// given reason, or a no-value detail carrying the resolution error.
    fn fixed_variation(
        &self,
        disabled: bool,
        user: &FPUser,
        default_reason: String,
        reason: Option<String>,
        is_detail: bool,
        debug_until_time: Option<u64>,
    ) -> (r: EvalDetail<FPValue>)
        ensures
            r@ == spec_fixed_detail(
                self@,
                if disabled {
                    self@.disabled_serve
                } else {
                    self@.default_serve
                },
                user@,
                default_reason@,
                match reason {
                    Some(ref s) => Some(s@),
                    None => None,
                },
                is_detail,
                debug_until_time,
            ),
    {
        let serve = if disabled {
            &self.disabled_serve
        } else {
            &self.default_serve
        };
        proof {
            assert(self@.variations =~= crate::value::values_view(self.variations@));
        }
        match serve.select_variation(self.key.as_str(), is_detail, user, &self.variations) {
            Ok(v) => {
                let joined = concat_reason(default_reason, reason);
                self.serve_variation(Some(v), joined, None, debug_until_time)
            },
            Err(e) => {
                let joined = concat_reason(e.reason_text(), reason);
                self.serve_variation(None, joined, None, debug_until_time)
            },
        }
    }

    /// The detail this toggle's disabled serve produces.
    pub fn disabled_variation(
        &self,
        user: &FPUser,
        reason: Option<String>,
        is_detail: bool,
        debug_until_time: Option<u64>,
    ) -> (r: EvalDetail<FPValue>)
        ensures
            r@ == spec_disabled_detail(
                self@,
                user@,
                match reason {
                    Some(ref s) => Some(s@),
                    None => None,
                },
                is_detail,
                debug_until_time,
            ),
    {
        self.fixed_variation(
            true,
            user,
            String::from_str("disabled."),
            reason,
            is_detail,
            debug_until_time,
        )
    }

    /// The detail this toggle's default serve produces.
    pub fn default_variation(
        &self,
        user: &FPUser,
        reason: Option<String>,
        is_detail: bool,
        debug_until_time: Option<u64>,
    ) -> (r: EvalDetail<FPValue>)
        ensures
            r@ == spec_default_detail(
                self@,
                user@,
                match reason {
                    Some(ref s) => Some(s@),
                    None => None,
                },
                is_detail,
                debug_until_time,
            ),
    {
        self.fixed_variation(
            false,
            user,
            String::from_str("default."),
            reason,
            is_detail,
            debug_until_time,
        )
    }

    /// Whether this toggle's prerequisites are satisfied, or why resolving
    /// them failed.
    #[verifier::loop_isolation(false)]
    pub fn meet_prerequisite(
        &self,
        user: &FPUser,
        segment_repo: &Vec<(String, Segment)>,
        toggle_repo: &Vec<(String, Toggle)>,
        is_detail: bool,
        deep: u8,
        debug_until_time: Option<u64>,
        now: u128,
    ) -> (r: Result<bool, PrerequisiteError>)
        ensures
            match r {
                Ok(b) => spec_meet_prerequisite(
                    self@,
                    user@,
                    segments_view(segment_repo@),
                    toggles_view(toggle_repo@),
                    is_detail,
                    deep as nat,
                    debug_until_time,
                    now,
                ) == Ok::<bool, PrereqErrorModel>(b),
                Err(e) => spec_meet_prerequisite(
                    self@,
                    user@,
                    segments_view(segment_repo@),
                    toggles_view(toggle_repo@),
                    is_detail,
                    deep as nat,
                    debug_until_time,
                    now,
                ) == Err::<bool, PrereqErrorModel>(e@),
            },
        decreases deep, 1int, 0int,
    {
        let ghost segs = segments_view(segment_repo@);
        let ghost togs = toggles_view(toggle_repo@);
        if deep == 0 {
            return Err(PrerequisiteError::DepthOverflow);
        }
        let ps = match &self.prerequisites {
            None => {
                return Ok(true);
            },
            Some(ps) => ps,
        };
        let ghost psm = self@.prerequisites->Some_0;
        proof {
            assert(psm.len() == ps@.len());
            assert(forall|j: int| 0 <= j < ps@.len() ==> psm[j] == ps@[j]@);
        }
        let n = ps.len();
        let mut i: usize = 0;
        while i < n
            invariant
                i <= n,
                n == ps@.len(),
                spec_prereq_list(
                    psm,
                    user@,
                    segs,
                    togs,
                    is_detail,
                    deep as nat,
                    debug_until_time,
                    now,
                    0,
                ) == spec_prereq_list(
                    psm,
                    user@,
                    segs,
                    togs,
                    is_detail,
                    deep as nat,
                    debug_until_time,
                    now,
                    i as int,
                ),
            decreases n - i,
        {
            let pre = &ps[i];
            proof {
                assert(psm[i as int] == ps@[i as int]@);
                let raw = raw_view(toggle_repo@);
                assert forall|j: int| 0 <= j < raw.len() implies #[trigger] togs[j] == (
                    raw[j].0,
                    (|t: Toggle| t@)(raw[j].1),
                ) by {
                    assert(raw[j] == (toggle_repo@[j].0@, toggle_repo@[j].1));
                    assert(togs[j] == (toggle_repo@[j].0@, toggle_repo@[j].1@));
                }
                lemma_table_get_rel(raw, togs, |t: Toggle| t@, pre.key@);
            }
            let dep = match table_find(toggle_repo, pre.key.as_str()) {
                None => {
                    return Err(PrerequisiteError::NotExist(pre.key.clone()));
                },
                Some(t) => t,
            };
            let eval = match dep.do_eval(
                user,
                segment_repo,
                toggle_repo,
                is_detail,
                deep - 1,
                debug_until_time,
                now,
            ) {
                Ok(d) => d,
                Err(e) => {
                    return Err(e);
                },
            };
            let matched = match &eval.value {
                Some(v) => v.value_eq(&pre.value),
                None => false,
            };
            if !matched {
                return Ok(false);
            }
            i += 1;
        }
        Ok(true)
    }

    /// Evaluates this toggle, or reports a prerequisite failure, at `now`
    /// epoch seconds.
    #[verifier::loop_isolation(false)]
    pub fn do_eval(
        &self,
        user: &FPUser,
        segment_repo: &Vec<(String, Segment)>,
        toggle_repo: &Vec<(String, Toggle)>,
        is_detail: bool,
        deep: u8,
        debug_until_time: Option<u64>,
        now: u128,
    ) -> (r: Result<EvalDetail<FPValue>, PrerequisiteError>)
        ensures
            match r {
                Ok(d) => spec_do_eval(
                    self@,
                    user@,
                    segments_view(segment_repo@),
                    toggles_view(toggle_repo@),
                    is_detail,
                    deep as nat,
                    debug_until_time,
                    now,
                ) == Ok::<DetailModel, PrereqErrorModel>(d@),
                Err(e) => spec_do_eval(
                    self@,
                    user@,
                    segments_view(segment_repo@),
                    toggles_view(toggle_repo@),
                    is_detail,
                    deep as nat,
                    debug_until_time,
                    now,
                ) == Err::<DetailModel, PrereqErrorModel>(e@),
            },
        decreases deep, 2int, 0int,
    {
        let ghost segs = segments_view(segment_repo@);
        let ghost togs = toggles_view(toggle_repo@);
        if !self.enabled {
            return Ok(self.disabled_variation(user, None, is_detail, debug_until_time));
        }
        match self.meet_prerequisite(
            user,
            segment_repo,
            toggle_repo,
            is_detail,
            deep,
            debug_until_time,
            now,
        ) {
            Err(e) => {
                return Err(e);
            },
            Ok(false) => {
                return Ok(
                    self.disabled_variation(
                        user,
                        Some(String::from_str("Prerequisite not match")),
                        is_detail,
                        debug_until_time,
                    ),
                );
            },
            Ok(true) => {},
        }
        let n = self.rules.len();
        let mut i: usize = 0;
        proof {
            assert(self@.rules.len() == n);
        }
        while i < n
            invariant
                i <= n,
                spec_scan_rules(self@, user@, segs, is_detail, debug_until_time, now, 0)
                    == spec_scan_rules(self@, user@, segs, is_detail, debug_until_time, now, i as int),
            decreases n - i,
        {
            let rule = &self.rules[i];
            proof {
                assert(self@.rules[i as int] == self.rules@[i as int]@);
                assert(self@.variations =~= crate::value::values_view(self.variations@));
            }
            match rule.serve_variation(
                self.key.as_str(),
                is_detail,
                user,
                &self.variations,
                segment_repo,
                now,
            ) {
                Ok(v) => {
                    match v {
                        Some(v) => {
                            let reason = String::from_str("rule ").concat(
                                usize_to_string(i).as_str(),
                            ).concat(".");
                            return Ok(
                                self.serve_variation(Some(v), reason, Some(i), debug_until_time),
                            );
                        },
                        None => {},
                    }
                },
                Err(e) => {
                    return Ok(
                        self.serve_variation(None, e.reason_text(), Some(i), debug_until_time),
                    );
                },
            }
            i += 1;
        }
        Ok(self.default_variation(user, None, is_detail, debug_until_time))
    }

    /// Evaluates this toggle at `now` epoch seconds; a prerequisite failure
    /// folds into a disabled-style detail carrying its diagnostic.
    pub fn eval_at(
        &self,
        user: &FPUser,
        segment_repo: &Vec<(String, Segment)>,
        toggle_repo: &Vec<(String, Toggle)>,
        is_detail: bool,
        deep: u8,
        debug_until_time: Option<u64>,
        now: u128,
    ) -> (r: EvalDetail<FPValue>)
        ensures
            r@ == spec_eval(
                self@,
                user@,
                segments_view(segment_repo@),
                toggles_view(toggle_repo@),
                is_detail,
                deep as nat,
                debug_until_time,
                now,
            ),
    {
        match self.do_eval(
            user,
            segment_repo,
            toggle_repo,
            is_detail,
            deep,
            debug_until_time,
            now,
        ) {
            Ok(d) => d,
            Err(e) => {
                let msg = e.message();
                self.disabled_variation(user, Some(msg), is_detail, debug_until_time)
            },
        }
    }

    /// Evaluates this toggle at the current time.
    pub fn eval(
        &self,
        user: &FPUser,
        segment_repo: &Vec<(String, Segment)>,
        toggle_repo: &Vec<(String, Toggle)>,
        is_detail: bool,
        deep: u8,
        debug_until_time: Option<u64>,
    ) -> (r: EvalDetail<FPValue>)
        ensures
            exists|now: u128|
                r@ == spec_eval(
                    self@,
                    user@,
                    segments_view(segment_repo@),
                    toggles_view(toggle_repo@),
                    is_detail,
                    deep as nat,
                    debug_until_time,
                    now,
                ),
    {
        let now = crate::unix_timestamp() / 1000;
        self.eval_at(user, segment_repo, toggle_repo, is_detail, deep, debug_until_time, now)
    }

    /// Whether this toggle is delivered to client-side SDKs.
    pub fn is_for_client(&self) -> (r: bool)
        ensures
            r == self@.for_client,
    {
        self.for_client
    }

    /// Whether accesses to this toggle are recorded.
    pub fn track_access_events(&self) -> (r: bool)
        ensures
            r == (self@.track_access_events == Some(true)),
    {
        match self.track_access_events {
            Some(b) => b,
            None => false,
        }
    }

    /// A minimal enabled toggle that always serves `val`.
    pub fn new_for_test(key: String, val: FPValue) -> (r: Toggle)
        ensures
            r@ == spec_test_toggle(key@, val@),
    {
        let r = Toggle {
            key,
            enabled: true,
            track_access_events: None,
            last_modified: None,
            default_serve: Serve::Select(0),
            disabled_serve: Serve::Select(0),
            variations: vec![val],
            version: 0,
            for_client: false,
            rules: Vec::new(),
            prerequisites: None,
        };
        proof {
            assert(r@.rules =~= Seq::<RuleModel>::empty());
            assert(r@.variations =~= seq![val@]);
        }
        r
    }
}

/// The toggle [`Toggle::new_for_test`] builds: enabled, version zero, no
/// rules or prerequisites, and both serves fixed on its single variation.
pub open spec fn spec_test_toggle(key: Seq<char>, val: ValueModel) -> ToggleModel {
    ToggleModel {
        key,
        enabled: true,
        track_access_events: None,
        last_modified: None,
        version: 0,
        for_client: false,
        disabled_serve: ServeModel::Select(0usize),
        default_serve: ServeModel::Select(0usize),
        rules: Seq::empty(),
        variations: seq![val],
        prerequisites: None,
    }
}


/// Where `spec_range_index` points: at the first variation whose ranges
/// contain the bucket, with no earlier variation containing it; when it
/// points nowhere, no variation contains the bucket.
pub proof fn lemma_range_index_props(ranges: Seq<Seq<(u32, u32)>>, b: int)
    ensures
        match spec_range_index(ranges, b) {
            Some(i) => {
                &&& 0 <= i < ranges.len()
                &&& bucket_in_ranges(ranges[i], b)
                &&& forall|j: int| 0 <= j < i ==> !bucket_in_ranges(#[trigger] ranges[j], b)
            },
            None => forall|j: int|
                0 <= j < ranges.len() ==> !bucket_in_ranges(#[trigger] ranges[j], b),
        },
    decreases ranges.len(),
{
    if ranges.len() > 0 {
        lemma_range_index_props(ranges.drop_first(), b);
        let d = ranges.drop_first();
        if !bucket_in_ranges(ranges[0], b) {
            match spec_range_index(d, b) {
                Some(i) => {
                    assert(spec_range_index(ranges, b) == Some(i + 1));
                    assert(ranges[i + 1] == d[i]);
                    assert forall|j: int| 0 <= j < i + 1 implies !bucket_in_ranges(
                        #[trigger] ranges[j],
                        b,
                    ) by {
                        if j > 0 {
                            assert(d[j - 1] == ranges[j]);
                            assert(!bucket_in_ranges(d[j - 1], b));
                        }
                    }
                },
                None => {
                    assert forall|j: int| 0 <= j < ranges.len() implies !bucket_in_ranges(
                        #[trigger] ranges[j],
                        b,
                    ) by {
                        if j > 0 {
                            assert(d[j - 1] == ranges[j]);
                            assert(!bucket_in_ranges(d[j - 1], b));
                        }
                    }
                },
            }
        }
    }
}

/// For ranges with no overlap at a bucket, the range lookup returns exactly
/// the one variation containing the bucket, and fails exactly when the
/// bucket falls in a gap.  With ranges partitioning the whole bucket space,
/// every bucket therefore resolves to exactly one variation index.
pub proof fn lemma_find_index_partition(ranges: Seq<Seq<(u32, u32)>>, b: int)
    requires
        forall|i1: int, i2: int|
            0 <= i1 < i2 < ranges.len() ==> !(bucket_in_ranges(#[trigger] ranges[i1], b)
                && bucket_in_ranges(#[trigger] ranges[i2], b)),
    ensures
        (exists|i: int| 0 <= i < ranges.len() && bucket_in_ranges(#[trigger] ranges[i], b))
            ==> match spec_range_index(ranges, b) {
            Some(i) => {
                &&& 0 <= i < ranges.len()
                &&& bucket_in_ranges(ranges[i], b)
                &&& forall|j: int|
                    0 <= j < ranges.len() && j != i ==> !bucket_in_ranges(#[trigger] ranges[j], b)
            },
            None => false,
        },
        !(exists|i: int| 0 <= i < ranges.len() && bucket_in_ranges(#[trigger] ranges[i], b))
            ==> spec_range_index(ranges, b) is None,
{
    lemma_range_index_props(ranges, b);
    if exists|i: int| 0 <= i < ranges.len() && bucket_in_ranges(#[trigger] ranges[i], b) {
        let w = choose|i: int| 0 <= i < ranges.len() && bucket_in_ranges(#[trigger] ranges[i], b);
        match spec_range_index(ranges, b) {
            Some(i) => {
                assert forall|j: int|
                    0 <= j < ranges.len() && j != i implies !bucket_in_ranges(
                    #[trigger] ranges[j],
                    b,
                ) by {
                    if j > i {
                        assert(!(bucket_in_ranges(ranges[i], b) && bucket_in_ranges(
                            ranges[j],
                            b,
                        )));
                    }
                }
            },
            None => {
                assert(!bucket_in_ranges(ranges[w], b));
            },
        }
    }
}

/// A disabled toggle always serves its disabled serve with reason
/// `disabled.`, whatever its rules and prerequisites say.
pub proof fn lemma_disabled_serves_disabled(
    t: ToggleModel,
    user: UserModel,
    segments: Seq<(Seq<char>, SegmentModel)>,
    toggles: Seq<(Seq<char>, ToggleModel)>,
    is_detail: bool,
    depth: nat,
    debug_until_time: Option<u64>,
    now: u128,
)
    requires
        !t.enabled,
    ensures
        spec_eval(t, user, segments, toggles, is_detail, depth, debug_until_time, now)
            == spec_disabled_detail(t, user, None, is_detail, debug_until_time),
{
}

/// Skipping one non-matching rule does not change the scan's outcome.
proof fn lemma_scan_rules_skip(
    t: ToggleModel,
    user: UserModel,
    segments: Seq<(Seq<char>, SegmentModel)>,
    is_detail: bool,
    debug_until_time: Option<u64>,
    now: u128,
    j: int,
)
    requires
        0 <= j < t.rules.len(),
        !spec_rule_matches(t.rules[j], user, segments, now),
    ensures
        spec_scan_rules(t, user, segments, is_detail, debug_until_time, now, j) == spec_scan_rules(
            t,
            user,
            segments,
            is_detail,
            debug_until_time,
            now,
            j + 1,
        ),
{
}

/// The scan from `k` equals the scan from `i` when no rule in between
/// matches.
proof fn lemma_scan_rules_to(
    t: ToggleModel,
    user: UserModel,
    segments: Seq<(Seq<char>, SegmentModel)>,
    is_detail: bool,
    debug_until_time: Option<u64>,
    now: u128,
    k: int,
    i: int,
)
    requires
        0 <= k <= i <= t.rules.len(),
        forall|j: int| k <= j < i ==> !spec_rule_matches(#[trigger] t.rules[j], user, segments, now),
    ensures
        spec_scan_rules(t, user, segments, is_detail, debug_until_time, now, k) == spec_scan_rules(
            t,
            user,
            segments,
            is_detail,
            debug_until_time,
            now,
            i,
        ),
    decreases i - k,
{
    if k < i {
        lemma_scan_rules_skip(t, user, segments, is_detail, debug_until_time, now, k);
        lemma_scan_rules_to(t, user, segments, is_detail, debug_until_time, now, k + 1, i);
    }
}

/// Rule evaluation stops at the first fully-matching rule: rules whose
/// conditions only partially match neither serve nor suppress later rules,
/// and once rule `i` fully matches, the outcome is rule `i`'s resolved serve
/// under reason `rule i.` — or, if resolving its serve fails, a no-value
/// detail carrying the error and rule `i`'s index — with no part played by
/// any later rule.
pub proof fn lemma_first_matching_rule_serves(
    t: ToggleModel,
    user: UserModel,
    segments: Seq<(Seq<char>, SegmentModel)>,
    is_detail: bool,
    debug_until_time: Option<u64>,
    now: u128,
    i: int,
)
    requires
        0 <= i < t.rules.len(),
        forall|j: int| 0 <= j < i ==> !spec_rule_matches(#[trigger] t.rules[j], user, segments, now),
        spec_rule_matches(t.rules[i], user, segments, now),
    ensures
        spec_scan_rules(t, user, segments, is_detail, debug_until_time, now, 0) == match
            spec_select_variation(t.rules[i].serve, t.key, user, t.variations, is_detail) {
            Ok(v) => spec_serve_detail(
                t,
                Some(v),
                "rule "@ + dec_str(i as nat) + "."@,
                Some(i as usize),
                debug_until_time,
            ),
            Err(e) => spec_serve_detail(
                t,
                None,
                spec_error_reason(e),
                Some(i as usize),
                debug_until_time,
            ),
        },
{
    lemma_scan_rules_to(t, user, segments, is_detail, debug_until_time, now, 0, i);
}

/// A prerequisite failure folds into the disabled serve, with the failure's
/// diagnostic joined behind `disabled.`.
pub proof fn lemma_prereq_failure_serves_disabled(
    t: ToggleModel,
    user: UserModel,
    segments: Seq<(Seq<char>, SegmentModel)>,
    toggles: Seq<(Seq<char>, ToggleModel)>,
    is_detail: bool,
    depth: nat,
    debug_until_time: Option<u64>,
    now: u128,
)
    requires
        spec_do_eval(t, user, segments, toggles, is_detail, depth, debug_until_time, now) is Err,
    ensures
        spec_eval(t, user, segments, toggles, is_detail, depth, debug_until_time, now)
            == spec_disabled_detail(
            t,
            user,
            Some(
                spec_prereq_reason(
                    spec_do_eval(
                        t,
                        user,
                        segments,
                        toggles,
                        is_detail,
                        depth,
                        debug_until_time,
                        now,
                    )->Err_0,
                ),
            ),
            is_detail,
            debug_until_time,
        ),
{
}

/// An enabled toggle evaluated with the depth bound exhausted fails with a
/// depth overflow, so its reason reports `prerequisite depth overflow`.
pub proof fn lemma_depth_exhausted(
    t: ToggleModel,
    user: UserModel,
    segments: Seq<(Seq<char>, SegmentModel)>,
    toggles: Seq<(Seq<char>, ToggleModel)>,
    is_detail: bool,
    debug_until_time: Option<u64>,
    now: u128,
)
    requires
        t.enabled,
    ensures
        spec_do_eval(t, user, segments, toggles, is_detail, 0, debug_until_time, now) == Err::<
            DetailModel,
            PrereqErrorModel,
        >(PrereqErrorModel::DepthOverflow),
{
}

/// An enabled toggle whose first prerequisite names a toggle that is not in
/// the repository fails with that key, so its reason reports
/// `<key> not exist`.
pub proof fn lemma_missing_prerequisite(
    t: ToggleModel,
    user: UserModel,
    segments: Seq<(Seq<char>, SegmentModel)>,
    toggles: Seq<(Seq<char>, ToggleModel)>,
    is_detail: bool,
    depth: nat,
    debug_until_time: Option<u64>,
    now: u128,
)
    requires
        t.enabled,
        depth > 0,
        t.prerequisites matches Some(ps) && ps.len() > 0 && table_get(toggles, ps[0].key) is None,
    ensures
        spec_do_eval(t, user, segments, toggles, is_detail, depth, debug_until_time, now) == Err::<
            DetailModel,
            PrereqErrorModel,
        >(PrereqErrorModel::NotExist(t.prerequisites->Some_0[0].key)),
{
}


/// Along a chain of enabled toggles, each listing the next as its first
/// prerequisite, evaluation fails with a depth overflow whenever the chain
/// outlasts the depth bound: the overflow arises at the deepest link and
/// propagates out unchanged.
pub proof fn lemma_prereq_chain_overflow(
    chain: Seq<ToggleModel>,
    user: UserModel,
    segments: Seq<(Seq<char>, SegmentModel)>,
    toggles: Seq<(Seq<char>, ToggleModel)>,
    is_detail: bool,
    depth: nat,
    debug_until_time: Option<u64>,
    now: u128,
)
    requires
        chain.len() > depth,
        forall|i: int| 0 <= i < chain.len() ==> (#[trigger] chain[i]).enabled,
        forall|i: int|
            0 <= i < chain.len() - 1 ==> ((#[trigger] chain[i]).prerequisites matches Some(ps)
                && ps.len() > 0 && table_get(toggles, ps[0].key) == Some(chain[i + 1])),
    ensures
        spec_do_eval(chain[0], user, segments, toggles, is_detail, depth, debug_until_time, now)
            == Err::<DetailModel, PrereqErrorModel>(PrereqErrorModel::DepthOverflow),
    decreases depth,
{
    let t = chain[0];
    if depth == 0 {
        lemma_depth_exhausted(t, user, segments, toggles, is_detail, debug_until_time, now);
    } else {
        let rest = chain.drop_first();
        assert(forall|i: int| 0 <= i < rest.len() ==> rest[i] == chain[i + 1]);
        assert forall|i: int| 0 <= i < rest.len() implies (#[trigger] rest[i]).enabled by {
            assert(rest[i] == chain[i + 1]);
        }
        assert forall|i: int|
            0 <= i < rest.len() - 1 implies ((#[trigger] rest[i]).prerequisites matches Some(ps)
            && ps.len() > 0 && table_get(toggles, ps[0].key) == Some(rest[i + 1])) by {
            assert(rest[i] == chain[i + 1]);
            assert(rest[i + 1] == chain[i + 2]);
        }
        lemma_prereq_chain_overflow(
            rest,
            user,
            segments,
            toggles,
            is_detail,
            (depth - 1) as nat,
            debug_until_time,
            now,
        );
        let ps = t.prerequisites->Some_0;
        assert(table_get(toggles, ps[0].key) == Some(chain[1]));
        assert(rest[0] == chain[1]);
        assert(spec_prereq_list(
            ps,
            user,
            segments,
            toggles,
            is_detail,
            depth,
            debug_until_time,
            now,
            0,
        ) == Err::<bool, PrereqErrorModel>(PrereqErrorModel::DepthOverflow));
    }
}

} // verus!

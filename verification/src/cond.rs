//! Condition matching: the per-type predicate evaluators consumed by rules,
//! and the segments they can refer to.

use vstd::prelude::*;

use crate::numbers::{spec_dec_parse, spec_number_cmp, number_cmp};
use crate::strings::{
    spec_contains, spec_ends_with, spec_parse_u128, spec_starts_with, parse_u128, str_contains,
    str_ends_with, str_starts_with, string_eq,
};
use crate::table::{lemma_table_get_rel, raw_view, table_find, table_get};
use crate::user::{FPUser, UserModel};

verus! {

/// The type tag of a condition, deciding which evaluator runs it.
///
/// An unrecognized tag maps to [`ConditionType::Unknown`], which matches
/// nothing.
#[derive(Clone, Copy, PartialEq, Eq, Structural, Debug)]
pub enum ConditionType {
    /// String predicates over a user attribute.
    Str,
    /// Membership in named segments.
    Segment,
    /// Epoch-second comparisons.
    Datetime,
    /// Numeric comparisons.
    Number,
    /// Semantic-version comparisons.
    Semver,
    /// An unrecognized tag; matches nothing.
    Unknown,
}

/// A single predicate over the user, combined with others by AND within a
/// rule.
#[derive(Clone)]
pub struct Condition {
    /// Which evaluator runs this condition.
    pub ctype: ConditionType,
    /// The user attribute examined.
    pub subject: String,
    /// The predicate name, e.g. `is one of` or `>=`.
    pub predicate: String,
    /// The values compared against; one match suffices.
    pub objects: Vec<String>,
}

/// What a [`Condition`] denotes.
pub struct ConditionModel {
    /// Which evaluator runs this condition.
    pub ctype: ConditionType,
    /// The user attribute examined.
    pub subject: Seq<char>,
    /// The predicate name.
    pub predicate: Seq<char>,
    /// The values compared against.
    pub objects: Seq<Seq<char>>,
}

impl View for Condition {
    type V = ConditionModel;

    open spec fn view(&self) -> ConditionModel {
        ConditionModel {
            ctype: self.ctype,
            subject: self.subject@,
            predicate: self.predicate@,
            objects: Seq::new(self.objects@.len(), |i: int| self.objects@[i]@),
        }
    }
}

/// A list of conditions of which **any** match admits the user.
#[derive(Clone)]
pub struct SegmentRule {
    /// The conditions, combined by OR.
    pub conditions: Vec<Condition>,
}

/// What a [`SegmentRule`] denotes.
pub struct SegmentRuleModel {
    /// The conditions, combined by OR.
    pub conditions: Seq<ConditionModel>,
}

impl View for SegmentRule {
    type V = SegmentRuleModel;

    open spec fn view(&self) -> SegmentRuleModel {
        SegmentRuleModel {
            conditions: Seq::new(self.conditions@.len(), |i: int| self.conditions@[i]@),
        }
    }
}

/// A reusable, named user-membership rule set referenced by segment
/// conditions.
#[derive(Clone)]
pub struct Segment {
    /// The segment's unique identifier.
    pub unique_id: String,
    /// The segment's version.
    pub version: u64,
    /// The rules of which **any** match admits the user.
    pub rules: Vec<SegmentRule>,
}

/// What a [`Segment`] denotes.
pub struct SegmentModel {
    /// The segment's unique identifier.
    pub unique_id: Seq<char>,
    /// The segment's version.
    pub version: u64,
    /// The rules of which any match admits the user.
    pub rules: Seq<SegmentRuleModel>,
}

impl View for Segment {
    type V = SegmentModel;

    open spec fn view(&self) -> SegmentModel {
        SegmentModel {
            unique_id: self.unique_id@,
            version: self.version,
            rules: Seq::new(self.rules@.len(), |i: int| self.rules@[i]@),
        }
    }
}

/// The models of a segment table, keyed by segment identifier.
pub open spec fn segments_view(t: Seq<(String, Segment)>) -> Seq<(Seq<char>, SegmentModel)> {
    Seq::new(t.len(), |i: int| (t[i].0@, t[i].1@))
}

/// The model of the segment table handed to condition evaluation, if one was
/// handed at all.
pub open spec fn segments_opt_view(t: Option<&Vec<(String, Segment)>>) -> Option<
    Seq<(Seq<char>, SegmentModel)>,
> {
    match t {
        Some(v) => Some(segments_view(v@)),
        None => None,
    }
}

/// Whether the pattern, compiled as a regular expression, matches anywhere in
/// the text; a pattern that does not compile matches nothing.
pub uninterp spec fn regex_matched(pattern: Seq<char>, text: Seq<char>) -> bool;

/// Relies on `regex::Regex::new` and `regex::Regex::is_match`: whether the
/// pattern, compiled as a regular expression, matches anywhere in the text; a
/// pattern that does not compile matches nothing.  The outcome depends on the
/// two strings alone.
#[verifier::external_body]
fn regex_is_match(pattern: &str, text: &str) -> (r: bool)
    ensures
        r == regex_matched(pattern@, text@),
{
    match regex::Regex::new(pattern) {
        Ok(re) => re.is_match(text),
        Err(_) => false,
    }
}

/// How two version strings compare as semantic versions: `-1`, `0` or `1`, or
/// nothing if either does not parse.
pub uninterp spec fn semver_order(a: Seq<char>, b: Seq<char>) -> Option<i8>;

/// Relies on `semver::Version::parse` and the `Ord` impl of
/// `semver::Version`: the ordering of the two version strings, or nothing if
/// either does not parse.  The outcome depends on the two strings alone.
#[verifier::external_body]
fn semver_compare(a: &str, b: &str) -> (r: Option<i8>)
    ensures
        r == semver_order(a@, b@),
{
    match (semver::Version::parse(a), semver::Version::parse(b)) {
        (Ok(x), Ok(y)) => Some(
            match x.cmp(&y) {
                std::cmp::Ordering::Less => -1,
                std::cmp::Ordering::Equal => 0,
                std::cmp::Ordering::Greater => 1,
            },
        ),
        _ => None,
    }
}

/// Whether one string object satisfies a positive string predicate against
/// the attribute value `c`.
pub open spec fn string_pred_holds(pred: Seq<char>, c: Seq<char>, o: Seq<char>) -> bool {
    if pred == "is one of"@ {
        c == o
    } else if pred == "ends with"@ {
        spec_ends_with(c, o)
    } else if pred == "starts with"@ {
        spec_starts_with(c, o)
    } else if pred == "contains"@ {
        spec_contains(c, o)
    } else if pred == "matches regex"@ {
        regex_matched(o, c)
    } else {
        false
    }
}

/// The positive predicate a negated string predicate tests, if the predicate
/// is a negation.
pub open spec fn positive_of(pred: Seq<char>) -> Option<Seq<char>> {
    if pred == "is not any of"@ {
        Some("is one of"@)
    } else if pred == "does not end with"@ {
        Some("ends with"@)
    } else if pred == "does not start with"@ {
        Some("starts with"@)
    } else if pred == "does not contain"@ {
        Some("contains"@)
    } else if pred == "does not match regex"@ {
        Some("matches regex"@)
    } else {
        None
    }
}

/// Whether any object of `cm` satisfies the positive string predicate `pred`
/// against the attribute value `c`.
pub open spec fn spec_any_object(cm: ConditionModel, pred: Seq<char>, c: Seq<char>) -> bool {
    exists|i: int| 0 <= i < cm.objects.len() && string_pred_holds(pred, c, #[trigger] cm.objects[i])
}

/// What a string condition decides: the attribute must be present, a positive
/// predicate holds if any object matches, a negated predicate negates the OR
/// over all objects as a whole, and an unknown predicate matches nothing.
pub open spec fn spec_match_string(cm: ConditionModel, pred: Seq<char>, user: UserModel) -> bool {
    match table_get(user.attrs, cm.subject) {
        None => false,
        Some(c) => match positive_of(pred) {
            Some(p) => !spec_any_object(cm, p, c),
            None => spec_any_object(cm, pred, c),
        },
    }
}

/// Whether a comparison outcome satisfies an ordering predicate.
pub open spec fn ord_pred_accepts(pred: Seq<char>, ord: Option<i8>) -> bool {
    match ord {
        None => false,
        Some(c) => {
            if pred == "="@ {
                c == 0
            } else if pred == ">"@ {
                c > 0
            } else if pred == ">="@ {
                c >= 0
            } else if pred == "<"@ {
                c < 0
            } else if pred == "<="@ {
                c <= 0
            } else {
                false
            }
        },
    }
}

/// Whether any object compares with the attribute value `c` as `pred` asks,
/// under the comparison `cmp`.
pub open spec fn spec_any_ord(
    objects: Seq<Seq<char>>,
    pred: Seq<char>,
    c: Seq<char>,
    cmp: spec_fn(Seq<char>, Seq<char>) -> Option<i8>,
) -> bool {
    exists|i: int| 0 <= i < objects.len() && ord_pred_accepts(pred, cmp(c, #[trigger] objects[i]))
}

/// What an ordering condition decides: the attribute must be present and
/// parse; `!=` negates the OR of `=` over all objects as a whole; an unknown
/// predicate matches nothing.
pub open spec fn spec_match_ordering(
    cm: ConditionModel,
    pred: Seq<char>,
    user: UserModel,
    cmp: spec_fn(Seq<char>, Seq<char>) -> Option<i8>,
    parses: spec_fn(Seq<char>) -> bool,
) -> bool {
    match table_get(user.attrs, cm.subject) {
        None => false,
        Some(c) => {
            if !parses(c) {
                false
            } else if pred == "!="@ {
                !spec_any_ord(cm.objects, "="@, c, cmp)
            } else {
                spec_any_ord(cm.objects, pred, c, cmp)
            }
        },
    }
}

/// What a semantic-version condition decides.
pub open spec fn spec_match_semver(cm: ConditionModel, pred: Seq<char>, user: UserModel) -> bool {
    spec_match_ordering(
        cm,
        pred,
        user,
        |a: Seq<char>, b: Seq<char>| semver_order(a, b),
        |c: Seq<char>| semver_order(c, c) is Some,
    )
}

/// What a numeric condition decides.
pub open spec fn spec_match_number(cm: ConditionModel, pred: Seq<char>, user: UserModel) -> bool {
    spec_match_ordering(
        cm,
        pred,
        user,
        |a: Seq<char>, b: Seq<char>| spec_number_cmp(a, b),
        |c: Seq<char>| spec_dec_parse(c) is Some,
    )
}

/// What a datetime condition decides: the attribute (or, when absent, the
/// current epoch second) is `after` (at or past) or `before` some object.
pub open spec fn spec_match_datetime(
    cm: ConditionModel,
    pred: Seq<char>,
    user: UserModel,
    now_secs: u128,
) -> bool {
    let copt = match table_get(user.attrs, cm.subject) {
        None => Some(now_secs),
        Some(a) => spec_parse_u128(a),
    };
    match copt {
        None => false,
        Some(c) => {
            if pred == "after"@ {
                exists|i: int|
                    0 <= i < cm.objects.len() && (spec_parse_u128(#[trigger] cm.objects[i])
                        matches Some(o) && c >= o)
            } else if pred == "before"@ {
                exists|i: int|
                    0 <= i < cm.objects.len() && (spec_parse_u128(#[trigger] cm.objects[i])
                        matches Some(o) && c < o)
            } else {
                false
            }
        },
    }
}

/// Whether the user belongs to any of the segments that `objects` names;
/// a name that is not in the table admits nothing.
pub open spec fn spec_user_in_segments(
    objects: Seq<Seq<char>>,
    user: UserModel,
    segments: Seq<(Seq<char>, SegmentModel)>,
    now_secs: u128,
) -> bool
    decreases 1int, 2int,
{
    exists|i: int|
        0 <= i < objects.len() && (table_get(segments, #[trigger] objects[i]) matches Some(seg)
            && spec_segment_contains(seg, user, now_secs))
}

/// Whether any rule of the segment admits the user.
pub open spec fn spec_segment_contains(seg: SegmentModel, user: UserModel, now_secs: u128) -> bool
    decreases 1int, 1int,
{
    exists|i: int|
        0 <= i < seg.rules.len() && spec_segment_rule_allows(#[trigger] seg.rules[i], user, now_secs)
}

/// Whether any condition of the rule matches the user; segment conditions
/// inside a segment match nothing.
pub open spec fn spec_segment_rule_allows(
    rule: SegmentRuleModel,
    user: UserModel,
    now_secs: u128,
) -> bool
    decreases 1int, 0int,
{
    exists|i: int|
        0 <= i < rule.conditions.len() && spec_meet(
            #[trigger] rule.conditions[i],
            user,
            None,
            now_secs,
        )
}

/// What a segment condition decides: `is in` holds when the user belongs to
/// any named segment, `is not in` negates that, anything else matches
/// nothing; with no segment table, nothing matches.
pub open spec fn spec_match_segment(
    cm: ConditionModel,
    pred: Seq<char>,
    user: UserModel,
    segments: Option<Seq<(Seq<char>, SegmentModel)>>,
    now_secs: u128,
) -> bool
    decreases (if segments is Some { 1int } else { 0int }), 3int,
{
    match segments {
        None => false,
        Some(t) => {
            if pred == "is in"@ {
                spec_user_in_segments(cm.objects, user, t, now_secs)
            } else if pred == "is not in"@ {
                !spec_user_in_segments(cm.objects, user, t, now_secs)
            } else {
                false
            }
        },
    }
}

/// What a condition decides, dispatched on its type tag.
pub open spec fn spec_meet(
    cm: ConditionModel,
    user: UserModel,
    segments: Option<Seq<(Seq<char>, SegmentModel)>>,
    now_secs: u128,
) -> bool
    decreases (if segments is Some { 1int } else { 0int }), 4int,
{
    match cm.ctype {
        ConditionType::Str => spec_match_string(cm, cm.predicate, user),
        ConditionType::Segment => spec_match_segment(cm, cm.predicate, user, segments, now_secs),
        ConditionType::Number => spec_match_number(cm, cm.predicate, user),
        ConditionType::Semver => spec_match_semver(cm, cm.predicate, user),
        ConditionType::Datetime => spec_match_datetime(cm, cm.predicate, user, now_secs),
        ConditionType::Unknown => false,
    }
}

impl Condition {
    /// Whether any object satisfies the positive string predicate `predicate`
    /// against the attribute value `c`.
    #[verifier::loop_isolation(false)]
    pub fn do_match(&self, c: &str, predicate: &str) -> (r: bool)
        ensures
            r == spec_any_object(self@, predicate@, c@),
    {
        let n = self.objects.len();
        let mut i: usize = 0;
        while i < n
            invariant
                i <= n,
                forall|j: int| 0 <= j < i ==> !string_pred_holds(predicate@, c@, self@.objects[j]),
            decreases n - i,
        {
            let o = &self.objects[i];
            let hit = if string_eq(predicate, "is one of") {
                string_eq(c, o.as_str())
            } else if string_eq(predicate, "ends with") {
                str_ends_with(c, o.as_str())
            } else if string_eq(predicate, "starts with") {
                str_starts_with(c, o.as_str())
            } else if string_eq(predicate, "contains") {
                str_contains(c, o.as_str())
            } else if string_eq(predicate, "matches regex") {
                regex_is_match(o.as_str(), c)
            } else {
                return false;
            };
            proof {
                assert(self@.objects[i as int] == self.objects@[i as int]@);
            }
            if hit {
                return true;
            }
            i += 1;
        }
        false
    }

    /// Whether any object satisfies the positive string predicate `predicate`
    /// against the attribute value `c`.
    pub fn match_objects(&self, c: &str, predicate: &str) -> (r: bool)
        ensures
            r == spec_any_object(self@, predicate@, c@),
    {
        self.do_match(c, predicate)
    }

    /// Evaluates a string condition against the user.
    pub fn match_string(&self, user: &FPUser, predicate: &str) -> (r: bool)
        ensures
            r == spec_match_string(self@, predicate@, user@),
    {
        match user.get(self.subject.as_str()) {
            None => false,
            Some(c) => {
                let c = c.clone();
                if string_eq(predicate, "is not any of") {
                    !self.do_match(c.as_str(), "is one of")
                } else if string_eq(predicate, "does not end with") {
                    !self.do_match(c.as_str(), "ends with")
                } else if string_eq(predicate, "does not start with") {
                    !self.do_match(c.as_str(), "starts with")
                } else if string_eq(predicate, "does not contain") {
                    !self.do_match(c.as_str(), "contains")
                } else if string_eq(predicate, "does not match regex") {
                    !self.do_match(c.as_str(), "matches regex")
                } else {
                    self.do_match(c.as_str(), predicate)
                }
            },
        }
    }

    /// Evaluates a semantic-version condition against the user.
    #[verifier::loop_isolation(false)]
    pub fn match_semver(&self, user: &FPUser, predicate: &str) -> (r: bool)
        ensures
            r == spec_match_semver(self@, predicate@, user@),
    {
        match user.get(self.subject.as_str()) {
            None => false,
            Some(c) => {
                let c = c.clone();
                if semver_compare(c.as_str(), c.as_str()).is_none() {
                    return false;
                }
                if string_eq(predicate, "!=") {
                    !self.any_semver(c.as_str(), "=")
                } else {
                    self.any_semver(c.as_str(), predicate)
                }
            },
        }
    }

    /// Whether any object compares with `c` as the ordering predicate
    /// `predicate` asks, as semantic versions.
    #[verifier::loop_isolation(false)]
    fn any_semver(&self, c: &str, predicate: &str) -> (r: bool)
        ensures
            r == spec_any_ord(
                self@.objects,
                predicate@,
                c@,
                |a: Seq<char>, b: Seq<char>| semver_order(a, b),
            ),
    {
        let ghost cmp = |a: Seq<char>, b: Seq<char>| semver_order(a, b);
        let n = self.objects.len();
        let mut i: usize = 0;
        while i < n
            invariant
                i <= n,
                forall|j: int|
                    0 <= j < i ==> !ord_pred_accepts(predicate@, cmp(c@, self@.objects[j])),
            decreases n - i,
        {
            let o = &self.objects[i];
            let ord = semver_compare(c, o.as_str());
            proof {
                assert(self@.objects[i as int] == self.objects@[i as int]@);
                assert(cmp(c@, self@.objects[i as int]) == semver_order(c@, o@));
            }
            if ord_accepts(predicate, ord) {
                return true;
            }
            i += 1;
        }
        false
    }

    /// Evaluates a numeric condition against the user.
    #[verifier::loop_isolation(false)]
    pub fn match_number(&self, user: &FPUser, predicate: &str) -> (r: bool)
        ensures
            r == spec_match_number(self@, predicate@, user@),
    {
        match user.get(self.subject.as_str()) {
            None => false,
            Some(c) => {
                let c = c.clone();
                if number_cmp(c.as_str(), c.as_str()).is_none() {
                    proof {
                        assert(spec_dec_parse(c@) is Some ==> spec_number_cmp(c@, c@) is Some);
                    }
                    return false;
                }
                if string_eq(predicate, "!=") {
                    !self.any_number(c.as_str(), "=")
                } else {
                    self.any_number(c.as_str(), predicate)
                }
            },
        }
    }

    /// Whether any object compares with `c` as the ordering predicate
    /// `predicate` asks, as decimal numbers.
    #[verifier::loop_isolation(false)]
    fn any_number(&self, c: &str, predicate: &str) -> (r: bool)
        ensures
            r == spec_any_ord(
                self@.objects,
                predicate@,
                c@,
                |a: Seq<char>, b: Seq<char>| spec_number_cmp(a, b),
            ),
    {
        let ghost cmp = |a: Seq<char>, b: Seq<char>| spec_number_cmp(a, b);
        let n = self.objects.len();
        let mut i: usize = 0;
        while i < n
            invariant
                i <= n,
                forall|j: int|
                    0 <= j < i ==> !ord_pred_accepts(predicate@, cmp(c@, self@.objects[j])),
            decreases n - i,
        {
            let o = &self.objects[i];
            let ord = number_cmp(c, o.as_str());
            proof {
                assert(self@.objects[i as int] == self.objects@[i as int]@);
                assert(cmp(c@, self@.objects[i as int]) == spec_number_cmp(c@, o@));
            }
            if ord_accepts(predicate, ord) {
                return true;
            }
            i += 1;
        }
        false
    }

    /// Evaluates a datetime condition against the user, at `now_secs` epoch
    /// seconds.
    #[verifier::loop_isolation(false)]
    pub fn match_timestamp(&self, user: &FPUser, predicate: &str, now_secs: u128) -> (r: bool)
        ensures
            r == spec_match_datetime(self@, predicate@, user@, now_secs),
    {
        let c: u128 = match user.get(self.subject.as_str()) {
            Some(v) => {
                match parse_u128(v.as_str()) {
                    Some(v) => v,
                    None => {
                        return false;
                    },
                }
            },
            None => now_secs,
        };
        let after = string_eq(predicate, "after");
        let before = string_eq(predicate, "before");
        if !after && !before {
            return false;
        }
        let n = self.objects.len();
        let mut i: usize = 0;
        while i < n
            invariant
                i <= n,
                after == (predicate@ == "after"@),
                before == (predicate@ == "before"@),
                after || before,
                forall|j: int|
                    0 <= j < i ==> !(spec_parse_u128(#[trigger] self@.objects[j]) matches Some(o)
                        && (if after {
                        c >= o
                    } else {
                        c < o
                    })),
            decreases n - i,
        {
            let o = &self.objects[i];
            proof {
                assert(self@.objects[i as int] == self.objects@[i as int]@);
            }
            match parse_u128(o.as_str()) {
                Some(ov) => {
                    if after {
                        if c >= ov {
                            return true;
                        }
                    } else {
                        if c < ov {
                            return true;
                        }
                    }
                },
                None => {},
            }
            i += 1;
        }
        false
    }

    /// Evaluates a segment condition against the user.
    pub fn match_segment(
        &self,
        user: &FPUser,
        predicate: &str,
        segment_repo: Option<&Vec<(String, Segment)>>,
        now_secs: u128,
    ) -> (r: bool)
        ensures
            r == spec_match_segment(
                self@,
                predicate@,
                user@,
                segments_opt_view(segment_repo),
                now_secs,
            ),
        decreases (if segment_repo is Some { 1int } else { 0int }), 3int,
    {
        match segment_repo {
            None => false,
            Some(repo) => {
                if string_eq(predicate, "is in") {
                    self.user_in_segments(user, repo, now_secs)
                } else if string_eq(predicate, "is not in") {
                    !self.user_in_segments(user, repo, now_secs)
                } else {
                    false
                }
            },
        }
    }

    /// Whether the user belongs to any of the segments this condition names.
    #[verifier::loop_isolation(false)]
    pub fn user_in_segments(
        &self,
        user: &FPUser,
        repo: &Vec<(String, Segment)>,
        now_secs: u128,
    ) -> (r: bool)
        ensures
            r == spec_user_in_segments(self@.objects, user@, segments_view(repo@), now_secs),
        decreases 1int, 2int,
    {
        let ghost segs = segments_view(repo@);
        let n = self.objects.len();
        let mut i: usize = 0;
        while i < n
            invariant
                i <= n,
                forall|j: int|
                    0 <= j < i ==> !(table_get(segs, #[trigger] self@.objects[j]) matches Some(seg)
                        && spec_segment_contains(seg, user@, now_secs)),
            decreases 1int, 2int, n - i,
        {
            let key = &self.objects[i];
            proof {
                assert(self@.objects[i as int] == self.objects@[i as int]@);
                let raw = raw_view(repo@);
                assert forall|j: int| 0 <= j < raw.len() implies #[trigger] segs[j] == (
                    raw[j].0,
                    (|s: Segment| s@)(raw[j].1),
                ) by {
                    assert(raw[j] == (repo@[j].0@, repo@[j].1));
                    assert(segs[j] == (repo@[j].0@, repo@[j].1@));
                }
                lemma_table_get_rel(
                    raw,
                    segs,
                    |s: Segment| s@,
                    self.objects@[i as int]@,
                );
            }
            match table_find(repo, key.as_str()) {
                Some(segment) => {
                    if segment.contains_at(user, now_secs) {
                        return true;
                    }
                },
                None => {},
            }
            i += 1;
        }
        false
    }

    /// Evaluates this condition against the user, at `now_secs` epoch
    /// seconds.
    pub fn meet_at(
        &self,
        user: &FPUser,
        segment_repo: Option<&Vec<(String, Segment)>>,
        now_secs: u128,
    ) -> (r: bool)
        ensures
            r == spec_meet(self@, user@, segments_opt_view(segment_repo), now_secs),
        decreases (if segment_repo is Some { 1int } else { 0int }), 4int,
    {
        match self.ctype {
            ConditionType::Str => self.match_string(user, self.predicate.as_str()),
            ConditionType::Segment => self.match_segment(
                user,
                self.predicate.as_str(),
                segment_repo,
                now_secs,
            ),
            ConditionType::Number => self.match_number(user, self.predicate.as_str()),
            ConditionType::Semver => self.match_semver(user, self.predicate.as_str()),
            ConditionType::Datetime => self.match_timestamp(
                user,
                self.predicate.as_str(),
                now_secs,
            ),
            ConditionType::Unknown => false,
        }
    }

    /// Evaluates this condition against the user at the current time.
    pub fn meet(&self, user: &FPUser, segment_repo: Option<&Vec<(String, Segment)>>) -> (r: bool)
        ensures
            exists|now: u128|
                r == spec_meet(self@, user@, segments_opt_view(segment_repo), now),
    {
        let now = crate::unix_timestamp() / 1000;
        self.meet_at(user, segment_repo, now)
    }
}

/// Whether a comparison outcome satisfies an ordering predicate.
fn ord_accepts(predicate: &str, ord: Option<i8>) -> (r: bool)
    ensures
        r == ord_pred_accepts(predicate@, ord),
{
    match ord {
        None => false,
        Some(c) => {
            if string_eq(predicate, "=") {
                c == 0
            } else if string_eq(predicate, ">") {
                c > 0
            } else if string_eq(predicate, ">=") {
                c >= 0
            } else if string_eq(predicate, "<") {
                c < 0
            } else if string_eq(predicate, "<=") {
                c <= 0
            } else {
                false
            }
        },
    }
}

impl SegmentRule {
    /// Whether any condition of this rule admits the user, at `now_secs`.
    #[verifier::loop_isolation(false)]
    pub fn allow_at(&self, user: &FPUser, now_secs: u128) -> (r: bool)
        ensures
            r == spec_segment_rule_allows(self@, user@, now_secs),
        decreases 1int, 0int,
    {
        let n = self.conditions.len();
        let mut i: usize = 0;
        while i < n
            invariant
                i <= n,
                forall|j: int|
                    0 <= j < i ==> !spec_meet(#[trigger] self@.conditions[j], user@, None, now_secs),
            decreases 1int, 0int, n - i,
        {
            proof {
                assert(self@.conditions[i as int] == self.conditions@[i as int]@);
            }
            if self.conditions[i].meet_at(user, None, now_secs) {
                return true;
            }
            i += 1;
        }
        false
    }

    /// Whether any condition of this rule admits the user, at the current
    /// time.
    pub fn allow(&self, user: &FPUser) -> (r: bool)
        ensures
            exists|now: u128| r == spec_segment_rule_allows(self@, user@, now),
    {
        let now = crate::unix_timestamp() / 1000;
        self.allow_at(user, now)
    }
}

impl Segment {
    /// Whether any rule of this segment admits the user, at `now_secs`.
    #[verifier::loop_isolation(false)]
    pub fn contains_at(&self, user: &FPUser, now_secs: u128) -> (r: bool)
        ensures
            r == spec_segment_contains(self@, user@, now_secs),
        decreases 1int, 1int,
    {
        let n = self.rules.len();
        let mut i: usize = 0;
        while i < n
            invariant
                i <= n,
                forall|j: int|
                    0 <= j < i ==> !spec_segment_rule_allows(
                        #[trigger] self@.rules[j],
                        user@,
                        now_secs,
                    ),
            decreases 1int, 1int, n - i,
        {
            proof {
                assert(self@.rules[i as int] == self.rules@[i as int]@);
            }
            if self.rules[i].allow_at(user, now_secs) {
                return true;
            }
            i += 1;
        }
        false
    }

    /// Whether any rule of this segment admits the user, at the current time.
    pub fn contains(&self, user: &FPUser) -> (r: bool)
        ensures
            exists|now: u128| r == spec_segment_contains(self@, user@, now),
    {
        let now = crate::unix_timestamp() / 1000;
        self.contains_at(user, now)
    }
}

} // verus!

//! Configuration of the sync: sources, rule sets and estimate-conversion
//! tables, with the validation that rejects a malformed configuration
//! before any pass starts.  Conversion tables are association lists keyed
//! by the decimal text of the estimate; the first entry with the wanted
//! key wins.

use vstd::prelude::*;

use crate::error::Error;
use crate::issues::opt_view;
use crate::services::spec_is_blank;
use crate::services::{fold_case, is_blank, lower_seq};
use crate::strutil::{spec_dec, spec_valid_time, u64_to_dec};

verus! {

/// One estimate-conversion table: estimate text to minutes.
pub type EstimateTable = Vec<(String, u32)>;

/// How numeric estimates become task durations: the tables are tried in a
/// fixed order and the first one that knows the key wins.
pub struct TimeEstimateStrategy {
    pub fibonacci: Option<EstimateTable>,
    pub tshirt: Option<EstimateTable>,
    pub linear: Option<EstimateTable>,
    pub points: Option<EstimateTable>,
    pub default_duration_mins: Option<u32>,
}

/// The rule set a source syncs under.
pub struct SyncRules {
    pub default_task_duration_mins: u32,
    pub completed_linear_tag: String,
    pub time_estimate_strategy: TimeEstimateStrategy,
}

/// One configured source of work items.
pub struct SyncSource {
    pub name: String,
    pub linear_api_key: String,
    pub projects: Option<Vec<String>>,
    pub webhook_base_url: Option<String>,
    pub sync_rules: Option<SyncRules>,
}

/// A window in which a different polling cadence applies.
pub struct ScheduleOverride {
    pub name: String,
    pub interval_seconds: u64,
    pub start_time: String,
    pub end_time: String,
    pub days: Vec<String>,
}

/// The whole configuration.
pub struct AppConfig {
    pub motion_api_key: String,
    pub sync_sources: Vec<SyncSource>,
    pub global_sync_rules: SyncRules,
    pub database_path: Option<String>,
    pub polling_interval_seconds: u64,
    pub schedule_overrides: Option<Vec<ScheduleOverride>>,
}

/// Mathematical model of a conversion table.
pub open spec fn table_view(t: Seq<(String, u32)>) -> Seq<(Seq<char>, u32)> {
    t.map_values(|p: (String, u32)| (p.0@, p.1))
}

/// Mathematical model of an optional conversion table.
pub open spec fn opt_table_view(t: Option<EstimateTable>) -> Option<Seq<(Seq<char>, u32)>> {
    match t {
        Some(v) => Some(table_view(v@)),
        None => None,
    }
}

/// Mathematical model of an estimate-conversion strategy.
pub ghost struct TimeEstimateStrategyView {
    pub fibonacci: Option<Seq<(Seq<char>, u32)>>,
    pub tshirt: Option<Seq<(Seq<char>, u32)>>,
    pub linear: Option<Seq<(Seq<char>, u32)>>,
    pub points: Option<Seq<(Seq<char>, u32)>>,
    pub default_duration_mins: Option<u32>,
}

impl View for TimeEstimateStrategy {
    type V = TimeEstimateStrategyView;

    open spec fn view(&self) -> TimeEstimateStrategyView {
        TimeEstimateStrategyView {
            fibonacci: opt_table_view(self.fibonacci),
            tshirt: opt_table_view(self.tshirt),
            linear: opt_table_view(self.linear),
            points: opt_table_view(self.points),
            default_duration_mins: self.default_duration_mins,
        }
    }
}

/// Mathematical model of a rule set.
pub ghost struct SyncRulesView {
    pub default_task_duration_mins: u32,
    pub completed_linear_tag: Seq<char>,
    pub time_estimate_strategy: TimeEstimateStrategyView,
}

impl View for SyncRules {
    type V = SyncRulesView;

    open spec fn view(&self) -> SyncRulesView {
        SyncRulesView {
            default_task_duration_mins: self.default_task_duration_mins,
            completed_linear_tag: self.completed_linear_tag@,
            time_estimate_strategy: self.time_estimate_strategy@,
        }
    }
}

/// Mathematical model of a configured source.
pub ghost struct SyncSourceView {
    pub name: Seq<char>,
    pub linear_api_key: Seq<char>,
    pub projects: Option<Seq<Seq<char>>>,
    pub webhook_base_url: Option<Seq<char>>,
    pub sync_rules: Option<SyncRulesView>,
}

impl View for SyncSource {
    type V = SyncSourceView;

    open spec fn view(&self) -> SyncSourceView {
        SyncSourceView {
            name: self.name@,
            linear_api_key: self.linear_api_key@,
            projects: match self.projects {
                Some(v) => Some(v@.map_values(|s: String| s@)),
                None => None,
            },
            webhook_base_url: opt_view(self.webhook_base_url),
            sync_rules: match self.sync_rules {
                Some(r) => Some(r@),
                None => None,
            },
        }
    }
}

/// Mathematical model of a schedule override.
pub ghost struct ScheduleOverrideView {
    pub name: Seq<char>,
    pub interval_seconds: u64,
    pub start_time: Seq<char>,
    pub end_time: Seq<char>,
    pub days: Seq<Seq<char>>,
}

impl View for ScheduleOverride {
    type V = ScheduleOverrideView;

    open spec fn view(&self) -> ScheduleOverrideView {
        ScheduleOverrideView {
            name: self.name@,
            interval_seconds: self.interval_seconds,
            start_time: self.start_time@,
            end_time: self.end_time@,
            days: self.days@.map_values(|s: String| s@),
        }
    }
}

/// Mathematical model of the whole configuration.
pub ghost struct AppConfigView {
    pub motion_api_key: Seq<char>,
    pub sync_sources: Seq<SyncSourceView>,
    pub global_sync_rules: SyncRulesView,
    pub database_path: Option<Seq<char>>,
    pub polling_interval_seconds: u64,
    pub schedule_overrides: Option<Seq<ScheduleOverrideView>>,
}

impl View for AppConfig {
    type V = AppConfigView;

    open spec fn view(&self) -> AppConfigView {
        AppConfigView {
            motion_api_key: self.motion_api_key@,
            sync_sources: self.sync_sources@.map_values(|s: SyncSource| s@),
            global_sync_rules: self.global_sync_rules@,
            database_path: opt_view(self.database_path),
            polling_interval_seconds: self.polling_interval_seconds,
            schedule_overrides: match self.schedule_overrides {
                Some(v) => Some(v@.map_values(|o: ScheduleOverride| o@)),
                None => None,
            },
        }
    }
}

fn clone_table(t: &EstimateTable) -> (r: EstimateTable)
    ensures
        r@ == t@,
{
    let mut out: EstimateTable = Vec::new();
    let mut i: usize = 0;
    while i < t.len()
        invariant
            0 <= i <= t.len(),
            out@ == t@.subrange(0, i as int),
        decreases t.len() - i,
    {
        let entry = (t[i].0.clone(), t[i].1);
        out.push(entry);
        i = i + 1;
        proof {
            assert(out@ =~= t@.subrange(0, i as int));
        }
    }
    proof {
        assert(t@.subrange(0, t@.len() as int) =~= t@);
    }
    out
}

fn clone_opt_table(t: &Option<EstimateTable>) -> (r: Option<EstimateTable>)
    ensures
        opt_table_view(r) == opt_table_view(*t),
{
    match t {
        Some(v) => Some(clone_table(v)),
        None => None,
    }
}

impl Clone for TimeEstimateStrategy {
    fn clone(&self) -> (r: Self)
        ensures
            r@ == self@,
    {
        TimeEstimateStrategy {
            fibonacci: clone_opt_table(&self.fibonacci),
            tshirt: clone_opt_table(&self.tshirt),
            linear: clone_opt_table(&self.linear),
            points: clone_opt_table(&self.points),
            default_duration_mins: self.default_duration_mins,
        }
    }
}

impl Clone for SyncRules {
    fn clone(&self) -> (r: Self)
        ensures
            r@ == self@,
    {
        SyncRules {
            default_task_duration_mins: self.default_task_duration_mins,
            completed_linear_tag: self.completed_linear_tag.clone(),
            time_estimate_strategy: self.time_estimate_strategy.clone(),
        }
    }
}

/// The rule set a source effectively syncs under: its own override where
/// it has one, the global rules otherwise.
pub open spec fn spec_effective_rules(s: SyncSourceView, global: SyncRulesView) -> SyncRulesView {
    match s.sync_rules {
        Some(r) => r,
        None => global,
    }
}

impl SyncSource {
    /// Resolves the rule set this source syncs under.
    pub fn effective_sync_rules(&self, global_rules: &SyncRules) -> (r: SyncRules)
        ensures
            r@ == spec_effective_rules(self@, global_rules@),
    {
        match &self.sync_rules {
            Some(source_rules) => source_rules.clone(),
            None => global_rules.clone(),
        }
    }
}

/// The first entry of the table with the wanted key, front to back.
pub open spec fn spec_table_lookup(t: Seq<(Seq<char>, u32)>, k: Seq<char>) -> Option<u32>
    decreases t.len(),
{
    if t.len() == 0 {
        None
    } else if t[0].0 == k {
        Some(t[0].1)
    } else {
        spec_table_lookup(t.drop_first(), k)
    }
}

/// Looks a key up in a conversion table, front to back.
pub fn table_lookup(t: &EstimateTable, key: &String) -> (r: Option<u32>)
    ensures
        r == spec_table_lookup(table_view(t@), key@),
{
    let ghost v = table_view(t@);
    proof {
        assert(v.skip(0) =~= v);
    }
    let mut i: usize = 0;
    while i < t.len()
        invariant
            0 <= i <= t.len(),
            v == table_view(t@),
            v.len() == t@.len(),
            spec_table_lookup(v, key@) == spec_table_lookup(v.skip(i as int), key@),
        decreases t.len() - i,
    {
        proof {
            assert(v.skip(i as int)[0] == v[i as int]);
        }
        if t[i].0.eq(key) {
            return Some(t[i].1);
        }
        proof {
            assert(v.skip(i as int).drop_first() =~= v.skip(i as int + 1));
        }
        i = i + 1;
    }
    proof {
        assert(v.skip(t@.len() as int).len() == 0);
    }
    None
}

/// What converting an estimate key by trying every table in order gives:
/// fibonacci, then t-shirt, then linear, then points, then the strategy's
/// own default.
pub open spec fn spec_convert_by_value(s: TimeEstimateStrategyView, k: Seq<char>) -> Option<u32> {
    if s.fibonacci matches Some(t) && spec_table_lookup(t, k) is Some {
        spec_table_lookup(s.fibonacci->0, k)
    } else if s.tshirt matches Some(t) && spec_table_lookup(t, k) is Some {
        spec_table_lookup(s.tshirt->0, k)
    } else if s.linear matches Some(t) && spec_table_lookup(t, k) is Some {
        spec_table_lookup(s.linear->0, k)
    } else if s.points matches Some(t) && spec_table_lookup(t, k) is Some {
        spec_table_lookup(s.points->0, k)
    } else {
        s.default_duration_mins
    }
}

/// What converting an estimate key through one named table kind gives;
/// the kind is the caller's text folded to lower case.
pub open spec fn spec_convert_typed(
    s: TimeEstimateStrategyView,
    k: Seq<char>,
    kind_lowered: Seq<char>,
) -> Option<u32> {
    if kind_lowered == "fibonacci"@ {
        match s.fibonacci {
            Some(t) => spec_table_lookup(t, k),
            None => None,
        }
    } else if kind_lowered == "tshirt"@ || kind_lowered == "t-shirt"@ {
        match s.tshirt {
            Some(t) => spec_table_lookup(t, k),
            None => None,
        }
    } else if kind_lowered == "linear"@ {
        match s.linear {
            Some(t) => spec_table_lookup(t, k),
            None => None,
        }
    } else if kind_lowered == "points"@ {
        match s.points {
            Some(t) => spec_table_lookup(t, k),
            None => None,
        }
    } else {
        None
    }
}

impl TimeEstimateStrategy {
    /// Converts an estimate, given as the decimal text the tables are
    /// keyed by, through the table the caller names.
    pub fn convert_estimate(&self, estimate_key: &String, estimate_type: &str) -> (r: Option<u32>)
        ensures
            r == spec_convert_typed(self@, estimate_key@, lower_seq(estimate_type@)),
    {
        let kind = fold_case(estimate_type);
        if kind.eq(&String::from_str("fibonacci")) {
            match &self.fibonacci {
                Some(t) => table_lookup(t, estimate_key),
                None => None,
            }
        } else if kind.eq(&String::from_str("tshirt")) || kind.eq(&String::from_str("t-shirt")) {
            match &self.tshirt {
                Some(t) => table_lookup(t, estimate_key),
                None => None,
            }
        } else if kind.eq(&String::from_str("linear")) {
            match &self.linear {
                Some(t) => table_lookup(t, estimate_key),
                None => None,
            }
        } else if kind.eq(&String::from_str("points")) {
            match &self.points {
                Some(t) => table_lookup(t, estimate_key),
                None => None,
            }
        } else {
            None
        }
    }

    /// Converts an estimate, given as the decimal text the tables are
    /// keyed by, trying every table in precedence order.
    pub fn convert_estimate_by_value(&self, estimate_key: &String) -> (r: Option<u32>)
        ensures
            r == spec_convert_by_value(self@, estimate_key@),
    {
        if let Some(t) = &self.fibonacci {
            if let Some(d) = table_lookup(t, estimate_key) {
                return Some(d);
            }
        }
        if let Some(t) = &self.tshirt {
            if let Some(d) = table_lookup(t, estimate_key) {
                return Some(d);
            }
        }
        if let Some(t) = &self.linear {
            if let Some(d) = table_lookup(t, estimate_key) {
                return Some(d);
            }
        }
        if let Some(t) = &self.points {
            if let Some(d) = table_lookup(t, estimate_key) {
                return Some(d);
            }
        }
        self.default_duration_mins
    }
}

/// The message rejecting a source whose issue-tracker key is missing.
pub open spec fn spec_msg_source_key(idx: int, name: Seq<char>) -> Seq<char> {
    "Linear API key is required for sync source "@ + spec_dec(idx as nat) + " ("@ + name + ")"@
}

/// The message rejecting a source whose project filter is present but
/// empty.
pub open spec fn spec_msg_source_projects(idx: int, name: Seq<char>) -> Seq<char> {
    "At least one project is required for source projects filter "@ + spec_dec(idx as nat) + " ("@
        + name + ")"@
}

/// The message rejecting a source without a name.
pub open spec fn spec_msg_source_name(idx: int) -> Seq<char> {
    "Name is required for sync source "@ + spec_dec(idx as nat)
}

/// The first complaint about the sources, in order, or nothing.
pub open spec fn spec_first_source_error(sources: Seq<SyncSourceView>, idx: int) -> Option<
    Seq<char>,
>
    decreases sources.len(),
{
    if sources.len() == 0 {
        None
    } else {
        let s = sources[0];
        if spec_is_blank(s.linear_api_key) || s.linear_api_key == "your_linear_api_key_here"@ {
            Some(spec_msg_source_key(idx, s.name))
        } else if s.projects matches Some(p) && p.len() == 0 {
            Some(spec_msg_source_projects(idx, s.name))
        } else if spec_is_blank(s.name) {
            Some(spec_msg_source_name(idx))
        } else {
            spec_first_source_error(sources.drop_first(), idx + 1)
        }
    }
}

/// The message rejecting an override whose start time is malformed.
pub open spec fn spec_msg_start_time(idx: int) -> Seq<char> {
    "Invalid start_time format for schedule override "@ + spec_dec(idx as nat)
        + ": expected HH:MM"@
}

/// The message rejecting an override whose end time is malformed.
pub open spec fn spec_msg_end_time(idx: int) -> Seq<char> {
    "Invalid end_time format for schedule override "@ + spec_dec(idx as nat) + ": expected HH:MM"@
}

/// The message rejecting an unknown day name.
pub open spec fn spec_msg_bad_day(day: Seq<char>, idx: int) -> Seq<char> {
    "Invalid day '"@ + day + "' in schedule override "@ + spec_dec(idx as nat)
        + ". Valid days: mon, tue, wed, thu, fri, sat, sun"@
}

/// Whether the text names a day of the week as the configuration wants
/// it.
pub open spec fn spec_is_valid_day(d: Seq<char>) -> bool {
    d == "mon"@ || d == "tue"@ || d == "wed"@ || d == "thu"@ || d == "fri"@ || d == "sat"@ || d
        == "sun"@
}

/// The first complaint about an override's day list, in order, or
/// nothing.
pub open spec fn spec_first_bad_day(days: Seq<Seq<char>>, idx: int) -> Option<Seq<char>>
    decreases days.len(),
{
    if days.len() == 0 {
        None
    } else if !spec_is_valid_day(days[0]) {
        Some(spec_msg_bad_day(days[0], idx))
    } else {
        spec_first_bad_day(days.drop_first(), idx)
    }
}

/// The first complaint about one schedule override, or nothing: start
/// time, then end time, then each day in order.
pub open spec fn spec_override_error(o: ScheduleOverrideView, idx: int) -> Option<Seq<char>> {
    if !spec_valid_time(o.start_time) {
        Some(spec_msg_start_time(idx))
    } else if !spec_valid_time(o.end_time) {
        Some(spec_msg_end_time(idx))
    } else {
        spec_first_bad_day(o.days, idx)
    }
}

/// The first complaint about the overrides, in order, or nothing.
pub open spec fn spec_first_override_error(os: Seq<ScheduleOverrideView>, idx: int) -> Option<
    Seq<char>,
>
    decreases os.len(),
{
    if os.len() == 0 {
        None
    } else if spec_override_error(os[0], idx) is Some {
        spec_override_error(os[0], idx)
    } else {
        spec_first_override_error(os.drop_first(), idx + 1)
    }
}

/// The first complaint about the whole configuration, or nothing: the
/// sink key, then the source list, then each source, then the database
/// path, then the overrides.
pub open spec fn spec_validate(c: AppConfigView) -> Option<Seq<char>> {
    if spec_is_blank(c.motion_api_key) || c.motion_api_key == "your_motion_api_key_here"@ {
        Some("Motion API key is required"@)
    } else if c.sync_sources.len() == 0 {
        Some("At least one sync source is required"@)
    } else if spec_first_source_error(c.sync_sources, 0) is Some {
        spec_first_source_error(c.sync_sources, 0)
    } else if c.database_path matches Some(p) && spec_is_blank(p) {
        Some("Database path is required"@)
    } else if c.schedule_overrides matches Some(os) && spec_first_override_error(os, 0) is Some {
        spec_first_override_error(c.schedule_overrides->0, 0)
    } else {
        None
    }
}

fn first_source_error(sources: &Vec<SyncSource>) -> (r: Option<String>)
    ensures
        opt_view(r) == spec_first_source_error(sources@.map_values(|s: SyncSource| s@), 0),
{
    let ghost v = sources@.map_values(|s: SyncSource| s@);
    proof {
        assert(v.skip(0) =~= v);
    }
    let key_placeholder = String::from_str("your_linear_api_key_here");
    let mut i: usize = 0;
    while i < sources.len()
        invariant
            0 <= i <= sources.len(),
            v == sources@.map_values(|s: SyncSource| s@),
            v.len() == sources@.len(),
            key_placeholder@ == "your_linear_api_key_here"@,
            spec_first_source_error(v, 0) == spec_first_source_error(v.skip(i as int), i as int),
        decreases sources.len() - i,
    {
        let source = &sources[i];
        proof {
            assert(v.skip(i as int)[0] == v[i as int]);
            assert(v.skip(i as int).drop_first() =~= v.skip(i as int + 1));
        }
        if is_blank(source.linear_api_key.as_str()) || source.linear_api_key.eq(&key_placeholder) {
            let mut m = String::from_str("Linear API key is required for sync source ");
            m.append(u64_to_dec(i as u64).as_str());
            m.append(" (");
            m.append(source.name.as_str());
            m.append(")");
            return Some(m);
        }
        if let Some(projects) = &source.projects {
            if projects.len() == 0 {
                let mut m = String::from_str(
                    "At least one project is required for source projects filter ",
                );
                m.append(u64_to_dec(i as u64).as_str());
                m.append(" (");
                m.append(source.name.as_str());
                m.append(")");
                return Some(m);
            }
        }
        if is_blank(source.name.as_str()) {
            let mut m = String::from_str("Name is required for sync source ");
            m.append(u64_to_dec(i as u64).as_str());
            return Some(m);
        }
        i = i + 1;
    }
    proof {
        assert(v.skip(v.len() as int).len() == 0);
    }
    None
}

impl AppConfig {
    /// Rejects a malformed configuration with the first complaint about
    /// it, exactly when there is one.
    #[verifier::rlimit(60)]
    pub fn validate(&self) -> (r: Result<(), Error>)
        ensures
            ({
                let v = spec_validate(self@);
                match r {
                    Ok(_) => v is None,
                    Err(e) => v is Some && (e matches Error::Validation(m) && m@ == v->0),
                }
            }),
    {
        if is_blank(self.motion_api_key.as_str()) || self.motion_api_key.eq(
            &String::from_str("your_motion_api_key_here"),
        ) {
            return Err(Error::Validation(String::from_str("Motion API key is required")));
        }
        if self.sync_sources.len() == 0 {
            return Err(Error::Validation(String::from_str("At least one sync source is required")));
        }
        if let Some(m) = first_source_error(&self.sync_sources) {
            return Err(Error::Validation(m));
        }
        if let Some(p) = &self.database_path {
            if is_blank(p.as_str()) {
                return Err(Error::Validation(String::from_str("Database path is required")));
            }
        }
        if let Some(overrides) = &self.schedule_overrides {
            let ghost ov = overrides@.map_values(|o: ScheduleOverride| o@);
            proof {
                assert(ov.skip(0) =~= ov);
            }
            let mut i: usize = 0;
            while i < overrides.len()
                invariant
                    0 <= i <= overrides.len(),
                    ov == overrides@.map_values(|o: ScheduleOverride| o@),
                    ov.len() == overrides@.len(),
                    !(spec_is_blank(self@.motion_api_key) || self@.motion_api_key
                        == "your_motion_api_key_here"@),
                    self@.sync_sources.len() > 0,
                    spec_first_source_error(self@.sync_sources, 0) is None,
                    !(self@.database_path matches Some(p) && spec_is_blank(p)),
                    self@.schedule_overrides == Some(ov),
                    spec_first_override_error(ov, 0) == spec_first_override_error(
                        ov.skip(i as int),
                        i as int,
                    ),
                decreases overrides.len() - i,
            {
                proof {
                    assert(ov.skip(i as int)[0] == ov[i as int]);
                    assert(ov.skip(i as int).drop_first() =~= ov.skip(i as int + 1));
                }
                let res = self.validate_schedule_override(i, &overrides[i]);
                if let Err(e) = res {
                    return Err(e);
                }
                i = i + 1;
            }
            proof {
                assert(ov.skip(ov.len() as int).len() == 0);
            }
        }
        Ok(())
    }

    /// Rejects one schedule override with the first complaint about it,
    /// exactly when there is one: start time, end time, then each day.
    pub fn validate_schedule_override(
        &self,
        idx: usize,
        override_config: &ScheduleOverride,
    ) -> (r: Result<(), Error>)
        ensures
            ({
                let v = spec_override_error(override_config@, idx as int);
                match r {
                    Ok(_) => v is None,
                    Err(e) => v is Some && (e matches Error::Validation(m) && m@ == v->0),
                }
            }),
    {
        if !self.is_valid_time_format(override_config.start_time.as_str()) {
            let mut m = String::from_str("Invalid start_time format for schedule override ");
            m.append(u64_to_dec(idx as u64).as_str());
            m.append(": expected HH:MM");
            return Err(Error::Validation(m));
        }
        if !self.is_valid_time_format(override_config.end_time.as_str()) {
            let mut m = String::from_str("Invalid end_time format for schedule override ");
            m.append(u64_to_dec(idx as u64).as_str());
            m.append(": expected HH:MM");
            return Err(Error::Validation(m));
        }
        let days = &override_config.days;
        let ghost dv = days@.map_values(|s: String| s@);
        proof {
            assert(dv.skip(0) =~= dv);
        }
        let mon = String::from_str("mon");
        let tue = String::from_str("tue");
        let wed = String::from_str("wed");
        let thu = String::from_str("thu");
        let fri = String::from_str("fri");
        let sat = String::from_str("sat");
        let sun = String::from_str("sun");
        let mut i: usize = 0;
        while i < days.len()
            invariant
                0 <= i <= days.len(),
                dv == days@.map_values(|s: String| s@),
                dv.len() == days@.len(),
                mon@ == "mon"@,
                tue@ == "tue"@,
                wed@ == "wed"@,
                thu@ == "thu"@,
                fri@ == "fri"@,
                sat@ == "sat"@,
                sun@ == "sun"@,
                spec_valid_time(override_config.start_time@),
                spec_valid_time(override_config.end_time@),
                override_config@.days == dv,
                spec_first_bad_day(dv, idx as int) == spec_first_bad_day(
                    dv.skip(i as int),
                    idx as int,
                ),
            decreases days.len() - i,
        {
            let day = &days[i];
            proof {
                assert(dv.skip(i as int)[0] == dv[i as int]);
                assert(dv.skip(i as int).drop_first() =~= dv.skip(i as int + 1));
            }
            let ok = day.eq(&mon) || day.eq(&tue) || day.eq(&wed) || day.eq(&thu) || day.eq(&fri)
                || day.eq(&sat) || day.eq(&sun);
            if !ok {
                let mut m = String::from_str("Invalid day '");
                m.append(day.as_str());
                m.append("' in schedule override ");
                m.append(u64_to_dec(idx as u64).as_str());
                m.append(". Valid days: mon, tue, wed, thu, fri, sat, sun");
                return Err(Error::Validation(m));
            }
            i = i + 1;
        }
        proof {
            assert(dv.skip(dv.len() as int).len() == 0);
        }
        Ok(())
    }

    /// Checks whether the text is a clock time `HH:MM`.
    pub fn is_valid_time_format(&self, time_str: &str) -> (r: bool)
        ensures
            r == spec_valid_time(time_str@),
    {
        crate::strutil::check_time_format(time_str)
    }

    /// The database path the configuration names, or the caller's default
    /// where it names none.
    pub fn database_path(&self, default_path: &str) -> (r: String)
        ensures
            r@ == match opt_view(self.database_path) {
                Some(p) => p,
                None => default_path@,
            },
    {
        match &self.database_path {
            Some(p) => p.clone(),
            None => default_path.to_owned(),
        }
    }
}

} // verus!

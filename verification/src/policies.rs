//! Policies view model, editor form and the decisions of the policy list
//! and schedule editor.

use crate::bus::text_equal;
use crate::dashboard::{AppCategoryRow, Category};
use crate::text::{clock_field_value, i64_text_value, number_field_value, push_decimal, u16_text_value};
use vstd::prelude::*;
use vstd::string::*;

verus! {

/// What a policy does to its target.
#[derive(Debug, Clone, Copy, PartialEq, Eq)]
pub enum Effect {
    Allow,
    Block,
    TimeLimit,
    Notify,
}

/// What a policy applies to.
#[derive(Debug, Clone, Copy, PartialEq, Eq, Structural)]
pub enum TargetType {
    App,
    Category,
    Domain,
    Any,
}

/// A weekly time window in which a policy applies.
#[derive(Debug, Clone, Copy, PartialEq, Eq)]
pub struct TimeWindow {
    /// Bit `i` set means weekday `i` (0 = Sunday).
    pub day_mask: u8,
    /// Minutes after midnight.
    pub start_minute: u32,
    pub end_minute: u32,
}

/// A stored policy as the daemon lists it.
#[derive(Debug, Clone, PartialEq, Eq)]
pub struct PolicyData {
    pub id: i64,
    pub name: String,
    pub effect: Effect,
    pub target_type: TargetType,
    pub app_class: String,
    pub category_name: String,
    pub domain_pattern: String,
    pub priority: i64,
    pub time_limit_minutes: i64,
    pub schedule_json: String,
    pub user_id: u32,
}

/// A policy to create or update.
#[derive(Debug, Clone, PartialEq, Eq)]
pub struct PolicyInput {
    pub name: String,
    pub effect: Effect,
    pub target_type: TargetType,
    pub app_class: String,
    pub category_name: String,
    pub domain_pattern: String,
    pub priority: i64,
    pub time_limit_minutes: i64,
    pub schedule_json: String,
    pub user_id: u32,
}

pub struct PolicyInputView {
    pub name: Seq<char>,
    pub effect: Effect,
    pub target_type: TargetType,
    pub app_class: Seq<char>,
    pub category_name: Seq<char>,
    pub domain_pattern: Seq<char>,
    pub priority: int,
    pub time_limit_minutes: int,
    pub schedule_json: Seq<char>,
    pub user_id: int,
}

impl View for PolicyInput {
    type V = PolicyInputView;

    open spec fn view(&self) -> PolicyInputView {
        PolicyInputView {
            name: self.name@,
            effect: self.effect,
            target_type: self.target_type,
            app_class: self.app_class@,
            category_name: self.category_name@,
            domain_pattern: self.domain_pattern@,
            priority: self.priority as int,
            time_limit_minutes: self.time_limit_minutes as int,
            schedule_json: self.schedule_json@,
            user_id: self.user_id as int,
        }
    }
}

/// UI-level target of a policy being edited.
#[derive(Debug, Clone, PartialEq, Eq)]
pub enum PolicyTarget {
    /// An individual application, by class.
    App(String),
    /// Every application of a category, by category name.
    Category(String),
    /// A domain pattern.
    Domain(String),
    /// Everything.
    Any,
}

/// Editable fields of one policy configuration.
#[derive(Debug, Clone, PartialEq, Eq)]
pub struct PolicyConfigForm {
    /// `"Allow"`, `"Block"`, `"TimeLimit"` or `"Notify"`.
    pub kind: String,
    pub time_limit_minutes: i64,
    /// JSON-encoded schedule windows.
    pub schedule_json: String,
    /// Schedule windows parsed from `schedule_json`.
    pub schedules: Vec<TimeWindow>,
    pub app_class: String,
    pub category_name: String,
    /// Lower is evaluated first.
    pub priority: i64,
    /// Day mask of the "add window" controls (0x7F = every day).
    pub schedule_new_day_mask: u8,
}

impl Default for PolicyConfigForm {
    fn default() -> (r: Self)
        ensures
            r.kind@ == "Block"@,
            r.time_limit_minutes == 60,
            r.schedule_json@ == "[]"@,
            r.schedules@.len() == 0,
            r.app_class@ == "_"@,
            r.category_name@.len() == 0,
            r.priority == 100,
            r.schedule_new_day_mask == 0x7F,
    {
        PolicyConfigForm {
            kind: String::from_str("Block"),
            time_limit_minutes: 60,
            schedule_json: String::from_str("[]"),
            schedules: Vec::new(),
            app_class: String::from_str("_"),
            category_name: String::new(),
            priority: 100,
            schedule_new_day_mask: 0x7F,
        }
    }
}

/// The effect selected by a form kind: `"Allow"`, `"TimeLimit"`, `"Notify"`,
/// anything else blocks.
pub open spec fn effect_of_kind(kind: Seq<char>) -> Effect {
    if kind == "Allow"@ {
        Effect::Allow
    } else if kind == "TimeLimit"@ {
        Effect::TimeLimit
    } else if kind == "Notify"@ {
        Effect::Notify
    } else {
        Effect::Block
    }
}

/// The placeholder stored in target fields that do not apply.
pub open spec fn placeholder() -> Seq<char> {
    "_"@
}

/// The policy input for a target and form: the target selects the type and
/// which of application class, category name and domain pattern is taken
/// (from the form for the first two, from the target for the domain), the
/// others being placeholders (`"_"`, empty for the category); the name is
/// `policy-{app}`, `policy-cat-{category}`, `policy-domain-{pattern}` or
/// `policy-any-{kind}`.
pub open spec fn policy_input_spec(target: PolicyTarget, form: PolicyConfigForm, user_id: u32) -> PolicyInputView {
    let (target_type, app_class, category_name, domain_pattern) = match target {
        PolicyTarget::App(_) => (TargetType::App, form.app_class@, Seq::<char>::empty(), placeholder()),
        PolicyTarget::Category(_) => (TargetType::Category, placeholder(), form.category_name@, placeholder()),
        PolicyTarget::Domain(d) => (TargetType::Domain, placeholder(), Seq::<char>::empty(), d@),
        PolicyTarget::Any => (TargetType::Any, placeholder(), Seq::<char>::empty(), placeholder()),
    };
    PolicyInputView {
        name: match target_type {
            TargetType::App => "policy-"@ + app_class,
            TargetType::Category => "policy-cat-"@ + category_name,
            TargetType::Domain => "policy-domain-"@ + domain_pattern,
            TargetType::Any => "policy-any-"@ + form.kind@,
        },
        effect: effect_of_kind(form.kind@),
        target_type,
        app_class,
        category_name,
        domain_pattern,
        priority: form.priority as int,
        time_limit_minutes: form.time_limit_minutes as int,
        schedule_json: form.schedule_json@,
        user_id: user_id as int,
    }
}

fn effect_from_kind(kind: &String) -> (r: Effect)
    ensures
        r == effect_of_kind(kind@),
{
    if text_equal(kind.as_str(), "Allow") {
        Effect::Allow
    } else if text_equal(kind.as_str(), "TimeLimit") {
        Effect::TimeLimit
    } else if text_equal(kind.as_str(), "Notify") {
        Effect::Notify
    } else {
        Effect::Block
    }
}

/// Build the input sent to the daemon to create or update a policy.
pub fn policy_input_from(target: PolicyTarget, form: &PolicyConfigForm, user_id: u32) -> (r: PolicyInput)
    ensures
        r@ == policy_input_spec(target, *form, user_id),
{
    proof {
        reveal_strlit("_");
        reveal_strlit("policy-");
        reveal_strlit("policy-cat-");
        reveal_strlit("policy-domain-");
        reveal_strlit("policy-any-");
    }
    let effect = effect_from_kind(&form.kind);
    let (target_type, app_class, category_name, domain_pattern) = match target {
        PolicyTarget::App(_) => (
            TargetType::App,
            form.app_class.clone(),
            String::new(),
            String::from_str("_"),
        ),
        PolicyTarget::Category(_) => (
            TargetType::Category,
            String::from_str("_"),
            form.category_name.clone(),
            String::from_str("_"),
        ),
        PolicyTarget::Domain(d) => (TargetType::Domain, String::from_str("_"), String::new(), d),
        PolicyTarget::Any => (
            TargetType::Any,
            String::from_str("_"),
            String::new(),
            String::from_str("_"),
        ),
    };
    let name = match target_type {
        TargetType::App => String::from_str("policy-").concat(app_class.as_str()),
        TargetType::Category => String::from_str("policy-cat-").concat(category_name.as_str()),
        TargetType::Domain => String::from_str("policy-domain-").concat(domain_pattern.as_str()),
        TargetType::Any => String::from_str("policy-any-").concat(form.kind.as_str()),
    };
    PolicyInput {
        name,
        effect,
        target_type,
        app_class,
        category_name,
        domain_pattern,
        priority: form.priority,
        time_limit_minutes: form.time_limit_minutes,
        schedule_json: form.schedule_json.clone(),
        user_id,
    }
}

/// Raw D-Bus response bundle for the policies screen.
#[derive(Debug, Clone)]
pub struct PoliciesData {
    pub policies: Vec<PolicyData>,
    pub categories: Vec<Category>,
    pub app_list: Vec<AppCategoryRow>,
}

/// Pure-data view model of the Policies screen.  The raw data persists in
/// `data`; the lists are derived from it by `recompute_derived`.
#[derive(Debug, Clone)]
pub struct PoliciesViewModel {
    /// Raw data bundle; `None` before the first successful fetch.
    pub data: Option<PoliciesData>,
    /// Application classes for the selector.
    pub app_list: Vec<String>,
    /// The policy target and form being edited, if any.
    pub selected_policy: Option<(PolicyTarget, PolicyConfigForm)>,
    pub categories: Vec<Category>,
    pub policies: Vec<PolicyData>,
    /// Validation messages shown in the editor.
    pub validation_errors: Vec<String>,
    pub is_admin: bool,
}

impl Default for PoliciesViewModel {
    fn default() -> (r: Self)
        ensures
            r.data is None,
            r.app_list@.len() == 0,
            r.selected_policy is None,
            r.categories@.len() == 0,
            r.policies@.len() == 0,
            r.validation_errors@.len() == 0,
            !r.is_admin,
    {
        PoliciesViewModel {
            data: None,
            app_list: Vec::new(),
            selected_policy: None,
            categories: Vec::new(),
            policies: Vec::new(),
            validation_errors: Vec::new(),
            is_admin: false,
        }
    }
}

fn copy_policy(p: &PolicyData) -> (r: PolicyData)
    ensures
        r == *p,
{
    PolicyData {
        id: p.id,
        name: p.name.clone(),
        effect: p.effect,
        target_type: p.target_type,
        app_class: p.app_class.clone(),
        category_name: p.category_name.clone(),
        domain_pattern: p.domain_pattern.clone(),
        priority: p.priority,
        time_limit_minutes: p.time_limit_minutes,
        schedule_json: p.schedule_json.clone(),
        user_id: p.user_id,
    }
}

fn copy_category(c: &Category) -> (r: Category)
    ensures
        r == *c,
{
    Category { id: c.id, name: c.name.clone(), color: c.color.clone() }
}

fn copy_policies(v: &Vec<PolicyData>) -> (r: Vec<PolicyData>)
    ensures
        r@ == v@,
{
    let mut out = Vec::new();
    let n = v.len();
    let mut i: usize = 0;
    while i < n
        invariant
            n == v.len(),
            i <= n,
            out@ == v@.take(i as int),
        decreases n - i,
    {
        out.push(copy_policy(&v[i]));
        assert(out@ =~= v@.take(i as int + 1));
        i += 1;
    }
    assert(v@.take(n as int) =~= v@);
    out
}

fn copy_categories(v: &Vec<Category>) -> (r: Vec<Category>)
    ensures
        r@ == v@,
{
    let mut out = Vec::new();
    let n = v.len();
    let mut i: usize = 0;
    while i < n
        invariant
            n == v.len(),
            i <= n,
            out@ == v@.take(i as int),
        decreases n - i,
    {
        out.push(copy_category(&v[i]));
        assert(out@ =~= v@.take(i as int + 1));
        i += 1;
    }
    assert(v@.take(n as int) =~= v@);
    out
}

fn copy_strings(v: &Vec<String>) -> (r: Vec<String>)
    ensures
        r@ == v@,
{
    let mut out = Vec::new();
    let n = v.len();
    let mut i: usize = 0;
    while i < n
        invariant
            n == v.len(),
            i <= n,
            out@ == v@.take(i as int),
        decreases n - i,
    {
        out.push(v[i].clone());
        assert(out@ =~= v@.take(i as int + 1));
        i += 1;
    }
    assert(v@.take(n as int) =~= v@);
    out
}

/// The application classes of the rows, in order.
pub open spec fn classes_of(rows: Seq<AppCategoryRow>) -> Seq<String> {
    rows.map_values(|r: AppCategoryRow| r.app_class)
}

fn app_classes(rows: &Vec<AppCategoryRow>) -> (r: Vec<String>)
    ensures
        r@ == classes_of(rows@),
{
    let mut out = Vec::new();
    let n = rows.len();
    let mut i: usize = 0;
    while i < n
        invariant
            n == rows.len(),
            i <= n,
            out@ == classes_of(rows@).take(i as int),
        decreases n - i,
    {
        out.push(rows[i].app_class.clone());
        assert(out@ =~= classes_of(rows@).take(i as int + 1));
        i += 1;
    }
    assert(classes_of(rows@).take(n as int) =~= classes_of(rows@));
    out
}

impl PoliciesViewModel {
    /// Recompute the lists from `data` (clearing them when there is none) and
    /// clear the validation messages; the selection and the admin flag are
    /// editing state and stay as they are.
    pub fn recompute_derived(&mut self)
        ensures
            final(self).data == old(self).data,
            final(self).selected_policy == old(self).selected_policy,
            final(self).is_admin == old(self).is_admin,
            final(self).validation_errors@.len() == 0,
            match old(self).data {
                None => {
                    &&& final(self).app_list@.len() == 0
                    &&& final(self).categories@.len() == 0
                    &&& final(self).policies@.len() == 0
                },
                Some(d) => {
                    &&& final(self).app_list@ == classes_of(d.app_list@)
                    &&& final(self).categories@ == d.categories@
                    &&& final(self).policies@ == d.policies@
                },
            },
    {
        let lists = match &self.data {
            None => None,
            Some(d) => Some((app_classes(&d.app_list), copy_categories(&d.categories), copy_policies(&d.policies))),
        };
        match lists {
            None => {
                self.app_list = Vec::new();
                self.categories = Vec::new();
                self.policies = Vec::new();
            },
            Some(l) => {
                let (a, c, p) = l;
                self.app_list = a;
                self.categories = c;
                self.policies = p;
            },
        }
        self.validation_errors = Vec::new();
    }
}

impl PoliciesViewModel {
    /// The view model after a successful re-fetch that follows a save or a
    /// delete: the fresh data with its lists derived, nothing selected, no
    /// validation messages, and the given admin flag.
    pub fn from_refetch(data: PoliciesData, is_admin: bool) -> (r: PoliciesViewModel)
        ensures
            r.data == Some(data),
            r.is_admin == is_admin,
            r.selected_policy is None,
            r.validation_errors@.len() == 0,
            r.app_list@ == classes_of(data.app_list@),
            r.categories@ == data.categories@,
            r.policies@ == data.policies@,
    {
        let mut vm = PoliciesViewModel {
            data: Some(data),
            app_list: Vec::new(),
            selected_policy: None,
            categories: Vec::new(),
            policies: Vec::new(),
            validation_errors: Vec::new(),
            is_admin,
        };
        vm.recompute_derived();
        vm
    }
}

/// Build a policies view model directly from the lists the daemon provides.
pub fn build_policies_viewmodel(
    policies: &Vec<PolicyData>,
    categories: &Vec<Category>,
    app_ids: &Vec<String>,
    is_admin: bool,
) -> (r: PoliciesViewModel)
    ensures
        r.data is None,
        r.app_list@ == app_ids@,
        r.selected_policy is None,
        r.categories@ == categories@,
        r.policies@ == policies@,
        r.validation_errors@.len() == 0,
        r.is_admin == is_admin,
{
    PoliciesViewModel {
        data: None,
        app_list: copy_strings(app_ids),
        selected_policy: None,
        categories: copy_categories(categories),
        policies: copy_policies(policies),
        validation_errors: Vec::new(),
        is_admin,
    }
}

// ---------------------------------------------------------------------------
// Policy list
// ---------------------------------------------------------------------------

/// Target types in section order.
pub open spec fn section_order() -> Seq<TargetType> {
    seq![TargetType::App, TargetType::Category, TargetType::Domain, TargetType::Any]
}

pub open spec fn has_target_type(policies: Seq<PolicyData>, t: TargetType) -> bool {
    exists|i: int| 0 <= i < policies.len() && (#[trigger] policies[i]).target_type == t
}

/// The list sections: the target types, in section order, that some policy has.
pub open spec fn sections_spec(policies: Seq<PolicyData>) -> Seq<TargetType> {
    section_order().filter(|t: TargetType| has_target_type(policies, t))
}

fn has_type(policies: &Vec<PolicyData>, t: TargetType) -> (r: bool)
    ensures
        r == has_target_type(policies@, t),
{
    let n = policies.len();
    let mut i: usize = 0;
    while i < n
        invariant
            n == policies.len(),
            i <= n,
            forall|k: int| 0 <= k < i ==> (#[trigger] policies@[k]).target_type != t,
        decreases n - i,
    {
        if policies[i].target_type == t {
            return true;
        }
        i += 1;
    }
    false
}

/// The target types that head the sections of the policy list.
pub fn policy_sections(policies: &Vec<PolicyData>) -> (r: Vec<TargetType>)
    ensures
        r@ == sections_spec(policies@),
{
    let order = [TargetType::App, TargetType::Category, TargetType::Domain, TargetType::Any];
    let mut out: Vec<TargetType> = Vec::new();
    let mut i: usize = 0;
    proof {
        assert(order@ =~= section_order());
    }
    while i < 4
        invariant
            i <= 4,
            order@ == section_order(),
            out@ == section_order().take(i as int).filter(|t: TargetType| has_target_type(policies@, t)),
        decreases 4 - i,
    {
        let t = order[i];
        proof {
            let f = |t: TargetType| has_target_type(policies@, t);
            let tk = section_order().take(i as int + 1);
            assert(tk.drop_last() =~= section_order().take(i as int));
            reveal(Seq::filter);
            assert(tk.last() == t);
        }
        if has_type(policies, t) {
            out.push(t);
        }
        i += 1;
    }
    proof {
        assert(section_order().take(4) =~= section_order());
    }
    out
}

pub open spec fn count_of_type(policies: Seq<PolicyData>, t: TargetType) -> nat {
    policies.filter(|p: PolicyData| p.target_type == t).len()
}

/// Number of policies in list section `section` (0 when there is no such section).
pub fn section_item_count(policies: &Vec<PolicyData>, section: usize) -> (r: usize)
    ensures
        r == if section < sections_spec(policies@).len() {
            count_of_type(policies@, sections_spec(policies@)[section as int])
        } else {
            0
        },
{
    let types = policy_sections(policies);
    if section >= types.len() {
        return 0;
    }
    let t = types[section];
    let n = policies.len();
    let mut count: usize = 0;
    let mut i: usize = 0;
    while i < n
        invariant
            n == policies.len(),
            i <= n,
            count == count_of_type(policies@.take(i as int), t),
            count <= i,
        decreases n - i,
    {
        proof {
            let tk = policies@.take(i as int + 1);
            assert(tk.drop_last() =~= policies@.take(i as int));
            reveal(Seq::filter);
        }
        if policies[i].target_type == t {
            count += 1;
        }
        i += 1;
    }
    proof {
        assert(policies@.take(n as int) =~= policies@);
    }
    count
}

/// Total number of policies of the given target types.
pub open spec fn counts_total(policies: Seq<PolicyData>, types: Seq<TargetType>) -> nat
    decreases types.len(),
{
    if types.len() == 0 {
        0
    } else {
        counts_total(policies, types.drop_last()) + count_of_type(policies, types.last())
    }
}

proof fn lemma_count_of_type_step(policies: Seq<PolicyData>, t: TargetType)
    requires
        policies.len() > 0,
    ensures
        count_of_type(policies, t) == count_of_type(policies.drop_last(), t) + if policies.last().target_type
            == t {
            1nat
        } else {
            0nat
        },
{
    reveal(Seq::filter);
}

proof fn lemma_types_partition(policies: Seq<PolicyData>)
    ensures
        policies.len() == count_of_type(policies, TargetType::App) + count_of_type(policies, TargetType::Category)
            + count_of_type(policies, TargetType::Domain) + count_of_type(policies, TargetType::Any),
    decreases policies.len(),
{
    if policies.len() == 0 {
        reveal(Seq::filter);
    } else {
        lemma_types_partition(policies.drop_last());
        lemma_count_of_type_step(policies, TargetType::App);
        lemma_count_of_type_step(policies, TargetType::Category);
        lemma_count_of_type_step(policies, TargetType::Domain);
        lemma_count_of_type_step(policies, TargetType::Any);
    }
}

proof fn lemma_absent_type_count(policies: Seq<PolicyData>, t: TargetType)
    requires
        !has_target_type(policies, t),
    ensures
        count_of_type(policies, t) == 0,
    decreases policies.len(),
{
    if policies.len() == 0 {
        reveal(Seq::filter);
    } else {
        let d = policies.drop_last();
        assert(!has_target_type(d, t)) by {
            if has_target_type(d, t) {
                let i = choose|i: int| 0 <= i < d.len() && (#[trigger] d[i]).target_type == t;
                assert(policies[i] == d[i]);
            }
        }
        lemma_absent_type_count(d, t);
        lemma_count_of_type_step(policies, t);
        assert(policies[policies.len() - 1] == policies.last());
    }
}

proof fn lemma_present_types_total(policies: Seq<PolicyData>, types: Seq<TargetType>)
    ensures
        counts_total(policies, types.filter(|t: TargetType| has_target_type(policies, t))) == counts_total(
            policies,
            types,
        ),
    decreases types.len(),
{
    let f = |t: TargetType| has_target_type(policies, t);
    if types.len() == 0 {
        reveal(Seq::filter);
        assert(types.filter(f) =~= Seq::<TargetType>::empty());
    } else {
        let d = types.drop_last();
        lemma_present_types_total(policies, d);
        reveal(Seq::filter);
        if f(types.last()) {
            assert(types.filter(f) == d.filter(f).push(types.last()));
            assert(types.filter(f).drop_last() =~= d.filter(f));
        } else {
            assert(types.filter(f) == d.filter(f));
            lemma_absent_type_count(policies, types.last());
        }
    }
}

/// The sections of the policy list show every policy exactly once: their
/// item counts add up to the number of policies.
pub proof fn law_sections_cover_all_policies(policies: Seq<PolicyData>)
    ensures
        counts_total(policies, sections_spec(policies)) == policies.len(),
{
    lemma_present_types_total(policies, section_order());
    lemma_types_partition(policies);
    let o = section_order();
    assert(o.drop_last() =~= seq![TargetType::App, TargetType::Category, TargetType::Domain]);
    assert(o.drop_last().drop_last() =~= seq![TargetType::App, TargetType::Category]);
    assert(o.drop_last().drop_last().drop_last() =~= seq![TargetType::App]);
    assert(o.drop_last().drop_last().drop_last().drop_last() =~= Seq::<TargetType>::empty());
    assert(counts_total(policies, seq![TargetType::App]) == count_of_type(policies, TargetType::App)) by {
        assert(seq![TargetType::App].drop_last() =~= Seq::<TargetType>::empty());
        assert(seq![TargetType::App].last() == TargetType::App);
        assert(counts_total(policies, Seq::<TargetType>::empty()) == 0);
    }
    assert(counts_total(policies, seq![TargetType::App, TargetType::Category]) == count_of_type(
        policies,
        TargetType::App,
    ) + count_of_type(policies, TargetType::Category)) by {
        assert(seq![TargetType::App, TargetType::Category].drop_last() =~= seq![TargetType::App]);
    }
    assert(counts_total(policies, seq![TargetType::App, TargetType::Category, TargetType::Domain])
        == count_of_type(policies, TargetType::App) + count_of_type(policies, TargetType::Category)
        + count_of_type(policies, TargetType::Domain)) by {
        assert(seq![TargetType::App, TargetType::Category, TargetType::Domain].drop_last() =~= seq![
            TargetType::App,
            TargetType::Category,
        ]);
    }
    assert(counts_total(policies, o) == policies.len());
}

/// The policy shown at row `row` of section `section`: the row-th policy
/// counted from the first policy of the section's target type.
pub fn section_item_index(policies: &Vec<PolicyData>, section: usize, row: usize) -> (r: Option<usize>)
    ensures
        match r {
            Some(ix) => {
                &&& section < sections_spec(policies@).len()
                &&& ix < policies@.len()
                &&& exists|start: int| {
                    &&& 0 <= start < policies@.len()
                    &&& policies@[start].target_type == sections_spec(policies@)[section as int]
                    &&& forall|k: int| 0 <= k < start ==> #[trigger] policies@[k].target_type != policies@[start].target_type
                    &&& ix == start + row
                }
            },
            None => section >= sections_spec(policies@).len() || {
                forall|start: int| 0 <= start < policies@.len() && policies@[start].target_type == sections_spec(policies@)[section as int]
                    && (forall|k: int| 0 <= k < start ==> #[trigger] policies@[k].target_type != policies@[start].target_type)
                    ==> start + row >= policies@.len()
            },
        },
{
    let types = policy_sections(policies);
    if section >= types.len() {
        return None;
    }
    let t = types[section];
    let n = policies.len();
    let mut i: usize = 0;
    while i < n
        invariant
            n == policies.len(),
            i <= n,
            types@ == sections_spec(policies@),
            section < types@.len(),
            t == types@[section as int],
            forall|k: int| 0 <= k < i ==> (#[trigger] policies@[k]).target_type != t,
        decreases n - i,
    {
        if policies[i].target_type == t {
            proof {
                assert(types@[section as int] == t);
                assert(policies@[i as int].target_type == sections_spec(policies@)[section as int]);
                assert forall|start: int|
                    0 <= start < policies@.len() && policies@[start].target_type == sections_spec(
                        policies@,
                    )[section as int] && (forall|k: int|
                        0 <= k < start ==> #[trigger] policies@[k].target_type != policies@[start].target_type) implies start
                    == i by {
                    if start < i {
                        assert(policies@[start].target_type != t);
                    } else if start > i {
                        assert(policies@[i as int].target_type != policies@[start].target_type);
                    }
                }
            }
            if row < n - i {
                return Some(i + row);
            } else {
                return None;
            }
        }
        i += 1;
    }
    proof {
        // sections only list types some policy has
        let f = |tt: TargetType| has_target_type(policies@, tt);
        section_order().lemma_filter_pred(f, section as int);
        assert(has_target_type(policies@, t));
    }
    None
}

/// Label of an effect in the policy list.
pub fn effect_label(effect: Effect) -> (r: &'static str)
    ensures
        r@ == match effect {
            Effect::Allow => "Allow"@,
            Effect::Block => "Block"@,
            Effect::TimeLimit => "Time Limit"@,
            Effect::Notify => "Notify"@,
        },
{
    match effect {
        Effect::Allow => "Allow",
        Effect::Block => "Block",
        Effect::TimeLimit => "Time Limit",
        Effect::Notify => "Notify",
    }
}

/// Header of a list section.
pub fn section_label(t: TargetType) -> (r: &'static str)
    ensures
        r@ == match t {
            TargetType::App => "App Policies"@,
            TargetType::Category => "Category Policies"@,
            TargetType::Domain => "Domain Policies"@,
            TargetType::Any => "All Targets"@,
        },
{
    match t {
        TargetType::App => "App Policies",
        TargetType::Category => "Category Policies",
        TargetType::Domain => "Domain Policies",
        TargetType::Any => "All Targets",
    }
}

/// The target text of a policy in the list.
pub open spec fn target_label_spec(p: PolicyData) -> Seq<char> {
    match p.target_type {
        TargetType::App => "App: "@ + p.app_class@,
        TargetType::Category => "Category: "@ + if p.category_name@.len() == 0 {
            "uncategorized"@
        } else {
            p.category_name@
        },
        TargetType::Domain => "Domain: "@ + p.domain_pattern@,
        TargetType::Any => "All"@,
    }
}

/// `"App: {class}"`, `"Category: {name}"` (`uncategorized` when the name is
/// empty), `"Domain: {pattern}"` or `"All"`.
pub fn target_label(p: &PolicyData) -> (r: String)
    ensures
        r@ == target_label_spec(*p),
{
    match p.target_type {
        TargetType::App => String::from_str("App: ").concat(p.app_class.as_str()),
        TargetType::Category => {
            if p.category_name.as_str().unicode_len() == 0 {
                String::from_str("Category: ").concat("uncategorized")
            } else {
                String::from_str("Category: ").concat(p.category_name.as_str())
            }
        },
        TargetType::Domain => String::from_str("Domain: ").concat(p.domain_pattern.as_str()),
        TargetType::Any => String::from_str("All"),
    }
}

/// The form kind naming an effect.
pub open spec fn effect_kind(effect: Effect) -> Seq<char> {
    match effect {
        Effect::Allow => "Allow"@,
        Effect::Block => "Block"@,
        Effect::TimeLimit => "TimeLimit"@,
        Effect::Notify => "Notify"@,
    }
}

proof fn lemma_effect_kind_round_trip(effect: Effect)
    ensures
        effect_of_kind(effect_kind(effect)) == effect,
{
    reveal_strlit("Allow");
    reveal_strlit("Block");
    reveal_strlit("TimeLimit");
    reveal_strlit("Notify");
    assert("Block"@[0] != "Allow"@[0]);
    assert("Block"@.len() != "TimeLimit"@.len());
    assert("Block"@[0] != "Notify"@[0]);
    assert("TimeLimit"@.len() != "Allow"@.len());
    assert("Notify"@.len() != "Allow"@.len());
    assert("Notify"@.len() != "TimeLimit"@.len());
}

/// The form kind of an effect: `"Allow"`, `"Block"`, `"TimeLimit"`, `"Notify"`.
pub fn kind_of_effect(effect: Effect) -> (r: &'static str)
    ensures
        r@ == effect_kind(effect),
        effect_of_kind(r@) == effect,
{
    proof {
        lemma_effect_kind_round_trip(effect);
    }
    match effect {
        Effect::Allow => "Allow",
        Effect::Block => "Block",
        Effect::TimeLimit => "TimeLimit",
        Effect::Notify => "Notify",
    }
}

/// The editing target of a stored policy: its target type with the field
/// that type uses.
pub open spec fn target_spec(p: PolicyData) -> PolicyTarget {
    match p.target_type {
        TargetType::Category => PolicyTarget::Category(p.category_name),
        TargetType::Domain => PolicyTarget::Domain(p.domain_pattern),
        TargetType::Any => PolicyTarget::Any,
        TargetType::App => PolicyTarget::App(p.app_class),
    }
}

/// The editing target of a stored policy.
pub fn target_of_policy(p: &PolicyData) -> (r: PolicyTarget)
    ensures
        r == target_spec(*p),
{
    match p.target_type {
        TargetType::Category => PolicyTarget::Category(p.category_name.clone()),
        TargetType::Domain => PolicyTarget::Domain(p.domain_pattern.clone()),
        TargetType::Any => PolicyTarget::Any,
        TargetType::App => PolicyTarget::App(p.app_class.clone()),
    }
}

/// The fields of `form` are those of the stored policy `p`.
pub open spec fn opened_from(form: PolicyConfigForm, p: PolicyData) -> bool {
    &&& form.kind@ == effect_kind(p.effect)
    &&& form.time_limit_minutes == p.time_limit_minutes
    &&& form.schedule_json == p.schedule_json
    &&& form.app_class == p.app_class
    &&& form.category_name == p.category_name
    &&& form.priority == p.priority
}

/// The editor form of a stored policy, with its schedule windows already
/// parsed from `schedule_json`.
pub fn form_of_policy(p: &PolicyData, schedules: Vec<TimeWindow>) -> (r: PolicyConfigForm)
    ensures
        opened_from(r, *p),
        r.schedules == schedules,
        r.schedule_new_day_mask == 0x7F,
{
    PolicyConfigForm {
        kind: String::from_str(kind_of_effect(p.effect)),
        time_limit_minutes: p.time_limit_minutes,
        schedule_json: p.schedule_json.clone(),
        schedules,
        app_class: p.app_class.clone(),
        category_name: p.category_name.clone(),
        priority: p.priority,
        schedule_new_day_mask: 0x7F,
    }
}

/// Saving a policy's editor form unchanged keeps the policy's settings: the
/// input has the policy's effect, target type, target field, priority, time
/// limit, schedule and user.
pub proof fn law_unedited_form_keeps_policy(p: PolicyData, form: PolicyConfigForm)
    requires
        opened_from(form, p),
    ensures
        ({
            let i = policy_input_spec(target_spec(p), form, p.user_id);
            &&& i.effect == p.effect
            &&& i.target_type == p.target_type
            &&& i.priority == p.priority
            &&& i.time_limit_minutes == p.time_limit_minutes
            &&& i.schedule_json == p.schedule_json@
            &&& i.user_id == p.user_id
            &&& p.target_type is App ==> i.app_class == p.app_class@
            &&& p.target_type is Category ==> i.category_name == p.category_name@
            &&& p.target_type is Domain ==> i.domain_pattern == p.domain_pattern@
        }),
{
    lemma_effect_kind_round_trip(p.effect);
}

/// The number a field's text denotes, or `default` when it is not a
/// decimal `i64`.
pub open spec fn field_value_or(text: Seq<char>, default: int) -> int {
    match i64_text_value(text) {
        Some(v) => v,
        None => default,
    }
}

/// Take the editor's fields into the form before saving: the time limit
/// (0 when its text is not a number), the priority (100 when its text is
/// not a number), the application class when the typed one was accepted,
/// and the schedule windows encoded as JSON.
pub fn apply_editor_fields(
    form: &mut PolicyConfigForm,
    time_limit_text: &str,
    priority_text: &str,
    accepted_app_class: Option<String>,
    schedule_json: String,
)
    ensures
        final(form).time_limit_minutes == field_value_or(time_limit_text@, 0),
        final(form).priority == field_value_or(priority_text@, 100),
        final(form).app_class == match accepted_app_class {
            Some(a) => a,
            None => old(form).app_class,
        },
        final(form).schedule_json == schedule_json,
        final(form).kind == old(form).kind,
        final(form).schedules == old(form).schedules,
        final(form).category_name == old(form).category_name,
        final(form).schedule_new_day_mask == old(form).schedule_new_day_mask,
{
    form.time_limit_minutes = number_field_value(time_limit_text, 0);
    form.priority = number_field_value(priority_text, 100);
    match accepted_app_class {
        Some(a) => {
            form.app_class = a;
        },
        None => {},
    }
    form.schedule_json = schedule_json;
}

/// The heading of the policy editor for the target being edited.
pub fn editing_label(target: &PolicyTarget) -> (r: String)
    ensures
        r@ == match target {
            PolicyTarget::App(id) => "Editing app: "@ + id@,
            PolicyTarget::Category(name) => "Editing category: "@ + name@,
            PolicyTarget::Domain(d) => "Editing domain: "@ + d@,
            PolicyTarget::Any => "Editing: All targets"@,
        },
{
    match target {
        PolicyTarget::App(id) => String::from_str("Editing app: ").concat(id.as_str()),
        PolicyTarget::Category(name) => String::from_str("Editing category: ").concat(name.as_str()),
        PolicyTarget::Domain(d) => String::from_str("Editing domain: ").concat(d.as_str()),
        PolicyTarget::Any => String::from_str("Editing: All targets"),
    }
}

/// Whether the editor shows the time-limit field: for time-limit and notify
/// policies.
pub fn shows_time_limit(form: &PolicyConfigForm) -> (r: bool)
    ensures
        r == (form.kind@ == "TimeLimit"@ || form.kind@ == "Notify"@),
{
    text_equal(form.kind.as_str(), "TimeLimit") || text_equal(form.kind.as_str(), "Notify")
}

/// The target after choosing a target type in the editor: a category takes
/// the form's category name, "any" needs nothing, and any other choice
/// targets the form's application class.
pub fn target_for_type(t: TargetType, form: &PolicyConfigForm) -> (r: PolicyTarget)
    ensures
        r == match t {
            TargetType::Category => PolicyTarget::Category(form.category_name),
            TargetType::Any => PolicyTarget::Any,
            _ => PolicyTarget::App(form.app_class),
        },
{
    match t {
        TargetType::Category => PolicyTarget::Category(form.category_name.clone()),
        TargetType::Any => PolicyTarget::Any,
        _ => PolicyTarget::App(form.app_class.clone()),
    }
}

fn copy_target(t: &PolicyTarget) -> (r: PolicyTarget)
    ensures
        r == *t,
{
    match t {
        PolicyTarget::App(a) => PolicyTarget::App(a.clone()),
        PolicyTarget::Category(c) => PolicyTarget::Category(c.clone()),
        PolicyTarget::Domain(d) => PolicyTarget::Domain(d.clone()),
        PolicyTarget::Any => PolicyTarget::Any,
    }
}

/// What saving the editor asks of the daemon: a new policy, or an update of
/// the policy being edited.
#[derive(Debug)]
pub enum SaveRequest {
    Create(PolicyInput),
    Update(i64, PolicyInput),
}

/// State of the policy editor: the target and form being edited (if any),
/// the id of the stored policy they came from (none for a new policy), and
/// the id the editor's input fields were last filled from.
#[derive(Debug)]
pub struct PolicyEditor {
    pub edit: Option<(PolicyTarget, PolicyConfigForm)>,
    pub edit_id: Option<i64>,
    pub last_synced_id: Option<i64>,
}

impl PolicyEditor {
    /// What pressing Save sends for user `user_id`: nothing when no policy is
    /// being edited; else the input built from the target and form, as an
    /// update of the edited policy when it has an id, as a new policy when
    /// it has none.
    pub fn save_request(&self, user_id: u32) -> (r: Option<SaveRequest>)
        ensures
            match self.edit {
                None => r is None,
                Some(e) => match r {
                    Some(SaveRequest::Update(id, input)) => self.edit_id == Some(id) && input@
                        == policy_input_spec(e.0, e.1, user_id),
                    Some(SaveRequest::Create(input)) => self.edit_id is None && input@ == policy_input_spec(
                        e.0,
                        e.1,
                        user_id,
                    ),
                    None => false,
                },
            },
    {
        match &self.edit {
            None => None,
            Some(e) => {
                let input = policy_input_from(copy_target(&e.0), &e.1, user_id);
                match self.edit_id {
                    Some(id) => Some(SaveRequest::Update(id, input)),
                    None => Some(SaveRequest::Create(input)),
                }
            },
        }
    }

    /// What pressing Delete removes: the edited policy's id, if it has one.
    pub fn delete_request(&self) -> (r: Option<i64>)
        ensures
            r == self.edit_id,
    {
        self.edit_id
    }

    /// After a save: a save the daemon accepted closes the editor; a failed
    /// one leaves it open as it was.
    pub fn finish_save(&mut self, saved: bool)
        ensures
            final(self).last_synced_id == old(self).last_synced_id,
            saved ==> final(self).edit is None && final(self).edit_id is None,
            !saved ==> final(self).edit == old(self).edit && final(self).edit_id == old(self).edit_id,
    {
        if saved {
            self.edit = None;
            self.edit_id = None;
        }
    }

    /// After a delete, whatever its outcome, the editor closes.
    pub fn finish_delete(&mut self)
        ensures
            final(self).edit is None,
            final(self).edit_id is None,
            final(self).last_synced_id == old(self).last_synced_id,
    {
        self.edit = None;
        self.edit_id = None;
    }

    /// Whether the editor's input fields must be refilled from the form: a
    /// policy is being edited and its id differs from the one the fields were
    /// last filled from (which then becomes the current one).  Without a
    /// policy being edited nothing is refilled and nothing changes.
    pub fn sync_inputs(&mut self) -> (refill: bool)
        ensures
            final(self).edit == old(self).edit,
            final(self).edit_id == old(self).edit_id,
            refill == (old(self).edit is Some && old(self).last_synced_id != old(self).edit_id),
            final(self).last_synced_id == if old(self).edit is Some {
                old(self).edit_id
            } else {
                old(self).last_synced_id
            },
    {
        if self.edit.is_none() {
            return false;
        }
        let differs = match (self.last_synced_id, self.edit_id) {
            (Some(a), Some(b)) => a != b,
            (None, None) => false,
            _ => true,
        };
        self.last_synced_id = self.edit_id;
        differs
    }
}

/// The policy being edited after clicking the policy `clicked`: clicking
/// the one being edited closes the editor, any other one is opened.
pub fn toggle_edited_policy(current: Option<i64>, clicked: i64) -> (r: Option<i64>)
    ensures
        r == if current == Some(clicked) {
            None
        } else {
            Some(clicked)
        },
{
    match current {
        Some(c) => if c == clicked {
            None
        } else {
            Some(clicked)
        },
        None => Some(clicked),
    }
}

// ---------------------------------------------------------------------------
// Schedule editor
// ---------------------------------------------------------------------------

pub open spec fn day_name(i: int) -> Seq<char> {
    if i == 0 {
        "Sun"@
    } else if i == 1 {
        "Mon"@
    } else if i == 2 {
        "Tue"@
    } else if i == 3 {
        "Wed"@
    } else if i == 4 {
        "Thu"@
    } else if i == 5 {
        "Fri"@
    } else {
        "Sat"@
    }
}

pub open spec fn day_set(mask: u8, i: int) -> bool {
    (mask as int / pow2_of(i)) % 2 == 1
}

pub open spec fn pow2_of(i: int) -> int
    decreases i,
{
    if i <= 0 {
        1
    } else {
        2 * pow2_of(i - 1)
    }
}

/// Names of the days among the first `k` weekdays set in `mask`, joined by commas.
pub open spec fn day_names_joined(mask: u8, k: int) -> Seq<char>
    decreases k,
{
    if k <= 0 {
        Seq::empty()
    } else {
        let prev = day_names_joined(mask, k - 1);
        if day_set(mask, k - 1) {
            if prev.len() == 0 {
                day_name(k - 1)
            } else {
                prev + ","@ + day_name(k - 1)
            }
        } else {
            prev
        }
    }
}

/// `"All"` for every day (0x7F), `"—"` for none, else the set weekdays.
pub open spec fn day_mask_label_spec(mask: u8) -> Seq<char> {
    if mask == 0x7F {
        "All"@
    } else if mask == 0 {
        "\u{2014}"@
    } else {
        day_names_joined(mask, 7)
    }
}

proof fn lemma_pow2_values()
    ensures
        pow2_of(0) == 1,
        pow2_of(1) == 2,
        pow2_of(2) == 4,
        pow2_of(3) == 8,
        pow2_of(4) == 16,
        pow2_of(5) == 32,
        pow2_of(6) == 64,
{
    reveal_with_fuel(pow2_of, 8);
}

proof fn lemma_single_day_joined(mask: u8, i: int, k: int)
    requires
        0 <= i < 7,
        mask as int == pow2_of(i),
        0 <= k <= 7,
    ensures
        day_names_joined(mask, k) == if k <= i {
            Seq::<char>::empty()
        } else {
            day_name(i)
        },
    decreases k,
{
    lemma_pow2_values();
    if k > 0 {
        lemma_single_day_joined(mask, i, k - 1);
        let j = k - 1;
        assert(pow2_of(j) == if j == 0 {
            1int
        } else if j == 1 {
            2
        } else if j == 2 {
            4
        } else if j == 3 {
            8
        } else if j == 4 {
            16
        } else if j == 5 {
            32
        } else {
            64
        });
        assert(mask as int == if i == 0 {
            1int
        } else if i == 1 {
            2
        } else if i == 2 {
            4
        } else if i == 3 {
            8
        } else if i == 4 {
            16
        } else if i == 5 {
            32
        } else {
            64
        });
        assert(day_set(mask, j) == (j == i)) by {
            assert(0 <= j < 7);
        }
    }
}

/// The label of a window on a single weekday is that day's name, Sunday
/// being bit 0: Sun, Mon, Tue, Wed, Thu, Fri, Sat.
pub proof fn law_single_day_labels()
    ensures
        day_mask_label_spec(1) == "Sun"@,
        day_mask_label_spec(2) == "Mon"@,
        day_mask_label_spec(4) == "Tue"@,
        day_mask_label_spec(8) == "Wed"@,
        day_mask_label_spec(16) == "Thu"@,
        day_mask_label_spec(32) == "Fri"@,
        day_mask_label_spec(64) == "Sat"@,
{
    lemma_pow2_values();
    lemma_single_day_joined(1, 0, 7);
    lemma_single_day_joined(2, 1, 7);
    lemma_single_day_joined(4, 2, 7);
    lemma_single_day_joined(8, 3, 7);
    lemma_single_day_joined(16, 4, 7);
    lemma_single_day_joined(32, 5, 7);
    lemma_single_day_joined(64, 6, 7);
}

fn day_name_str(i: usize) -> (r: &'static str)
    requires
        i < 7,
    ensures
        r@ == day_name(i as int),
{
    match i {
        0 => "Sun",
        1 => "Mon",
        2 => "Tue",
        3 => "Wed",
        4 => "Thu",
        5 => "Fri",
        _ => "Sat",
    }
}

/// The label of a window's day mask.
pub fn day_mask_label(mask: u8) -> (r: String)
    ensures
        r@ == day_mask_label_spec(mask),
{
    if mask == 0x7F {
        return String::from_str("All");
    }
    if mask == 0 {
        return String::from_str("\u{2014}");
    }
    let mut out = String::new();
    let mut i: usize = 0;
    let mut rest: u8 = mask;
    let mut empty = true;
    while i < 7
        invariant
            i <= 7,
            out@ == day_names_joined(mask, i as int),
            empty == (out@.len() == 0),
            rest as int == mask as int / pow2_of(i as int),
        decreases 7 - i,
    {
        proof {
            assert(pow2_of(i as int + 1) == 2 * pow2_of(i as int));
            assert(pow2_of(i as int) > 0) by {
                lemma_pow2_pos(i as int);
            }
            vstd::arithmetic::div_mod::lemma_div_denominator(mask as int, pow2_of(i as int), 2);
            reveal_strlit(",");
        }
        if rest % 2 == 1 {
            if !empty {
                out.append(",");
            }
            out.append(day_name_str(i));
            empty = false;
            proof {
                assert(day_name(i as int).len() > 0) by {
                    reveal_strlit("Sun");
                    reveal_strlit("Mon");
                    reveal_strlit("Tue");
                    reveal_strlit("Wed");
                    reveal_strlit("Thu");
                    reveal_strlit("Fri");
                    reveal_strlit("Sat");
                }
            }
        }
        rest = rest / 2;
        i += 1;
    }
    out
}

proof fn lemma_pow2_pos(i: int)
    ensures
        pow2_of(i) > 0,
    decreases i,
{
    if i > 0 {
        lemma_pow2_pos(i - 1);
    }
}

/// Two-digit zero-padded decimal text of `n` (more digits when needed).
pub open spec fn padded2(n: int) -> Seq<char> {
    if n < 10 {
        seq!['0'] + crate::text::decimal_text(n)
    } else {
        crate::text::decimal_text(n)
    }
}

/// `"HH:MM"` of a minute count.
pub fn minute_label(minute: u32) -> (r: String)
    ensures
        r@ == padded2(minute as int / 60) + seq![':'] + padded2(minute as int % 60),
{
    proof {
        reveal_strlit("0");
        reveal_strlit(":");
    }
    let h = minute / 60;
    let m = minute % 60;
    let mut out = String::new();
    if h < 10 {
        out.append("0");
    }
    push_decimal(&mut out, h as i64);
    out.append(":");
    if m < 10 {
        out.append("0");
    }
    push_decimal(&mut out, m as i64);
    assert(out@ =~= padded2(minute as int / 60) + seq![':'] + padded2(minute as int % 60));
    out
}

/// The value of a clock field: its number (0 when it is none), at most `max`.
pub open spec fn clock_value(text: Seq<char>, max: int) -> int {
    match u16_text_value(text) {
        Some(v) => if v <= max {
            v
        } else {
            max
        },
        None => 0,
    }
}

/// Add the window typed into the hour and minute fields (hours capped at 23,
/// minutes at 59, a field that is not a number counting as 0) with the "add
/// window" day mask, then reset that mask to every day.  A window that
/// starts when it ends is not added and the form stays as it is.  Returns
/// whether the window was added.
pub fn add_schedule_window(
    form: &mut PolicyConfigForm,
    start_hour: &str,
    start_minute: &str,
    end_hour: &str,
    end_minute: &str,
) -> (added: bool)
    ensures
        ({
            let s = clock_value(start_hour@, 23) * 60 + clock_value(start_minute@, 59);
            let e = clock_value(end_hour@, 23) * 60 + clock_value(end_minute@, 59);
            &&& added == (s != e)
            &&& added ==> {
                &&& final(form).schedules@ == old(form).schedules@.push(
                    TimeWindow { day_mask: old(form).schedule_new_day_mask, start_minute: s as u32, end_minute: e as u32 },
                )
                &&& final(form).schedule_new_day_mask == 0x7F
                &&& final(form).kind == old(form).kind
                &&& final(form).time_limit_minutes == old(form).time_limit_minutes
                &&& final(form).schedule_json == old(form).schedule_json
                &&& final(form).app_class == old(form).app_class
                &&& final(form).category_name == old(form).category_name
                &&& final(form).priority == old(form).priority
            }
            &&& !added ==> *final(form) == *old(form)
        }),
{
    let sh = clock_field_value(start_hour, 23) as u32;
    let sm = clock_field_value(start_minute, 59) as u32;
    let eh = clock_field_value(end_hour, 23) as u32;
    let em = clock_field_value(end_minute, 59) as u32;
    let start = sh * 60 + sm;
    let end = eh * 60 + em;
    if start == end {
        return false;
    }
    let mask = form.schedule_new_day_mask;
    form.schedules.push(TimeWindow { day_mask: mask, start_minute: start, end_minute: end });
    form.schedule_new_day_mask = 0x7F;
    true
}

/// The "add window" day mask after toggling weekday `day` (0 = Sunday).
pub fn toggle_day(mask: u8, day: u32) -> (r: u8)
    requires
        day < 7,
    ensures
        r == mask ^ ((1u8 << day) as u8),
{
    mask ^ (1u8 << day)
}

/// Removes the window at `index`; out-of-range indices leave the list as it is.
pub fn remove_schedule(schedules: &mut Vec<TimeWindow>, index: usize)
    ensures
        final(schedules)@ == if index < old(schedules)@.len() {
            old(schedules)@.remove(index as int)
        } else {
            old(schedules)@
        },
{
    if index < schedules.len() {
        schedules.remove(index);
    }
}

/// The time limit after a step of the number input: one more, or one less
/// but not below 0.
pub fn step_time_limit(current: i64, increment: bool) -> (r: i64)
    requires
        increment ==> current < i64::MAX,
    ensures
        r == if increment {
            current + 1
        } else if current - 1 > 0 {
            current - 1
        } else {
            0
        },
{
    if increment {
        current + 1
    } else if current > i64::MIN && current - 1 > 0 {
        current - 1
    } else {
        0
    }
}

/// The priority after a step of the number input: one more, or one less but
/// not below 1.
pub fn step_priority(current: i64, increment: bool) -> (r: i64)
    requires
        increment ==> current < i64::MAX,
    ensures
        r == if increment {
            current + 1
        } else if current - 1 > 1 {
            current - 1
        } else {
            1
        },
{
    if increment {
        current + 1
    } else if current > i64::MIN && current - 1 > 1 {
        current - 1
    } else {
        1
    }
}

} // verus!

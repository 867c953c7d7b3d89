use wellbeing_gui::text::number_field_value;
use wellbeing_gui::policies::{
    add_schedule_window, apply_editor_fields, build_policies_viewmodel, editing_label,
    shows_time_limit, target_for_type, PolicyEditor, SaveRequest, day_mask_label, effect_label, form_of_policy, kind_of_effect,
    minute_label, policy_input_from, policy_sections, remove_schedule, section_item_count,
    section_item_index, section_label, step_priority, step_time_limit, target_label,
    target_of_policy, toggle_day, toggle_edited_policy, Effect, PoliciesData, PoliciesViewModel,
    PolicyConfigForm, PolicyData, PolicyTarget, TargetType, TimeWindow,
};

fn policy(id: i64, target_type: TargetType, effect: Effect) -> PolicyData {
    PolicyData {
        id,
        name: format!("p{id}"),
        effect,
        target_type,
        app_class: "firefox".into(),
        category_name: String::new(),
        domain_pattern: "*.example.com".into(),
        priority: 100,
        time_limit_minutes: 30,
        schedule_json: "[]".into(),
        user_id: 1000,
    }
}

#[test]
fn policy_input_for_each_target() {
    let mut form = PolicyConfigForm::default();
    assert_eq!(form.kind, "Block");
    assert_eq!(form.priority, 100);
    form.app_class = "kitty".into();
    form.category_name = "Games".into();
    form.kind = "TimeLimit".into();
    let app = policy_input_from(PolicyTarget::App("x".into()), &form, 1000);
    assert_eq!(app.name, "policy-kitty");
    assert_eq!(app.effect, Effect::TimeLimit);
    assert_eq!(app.target_type, TargetType::App);
    assert_eq!(app.domain_pattern, "_");
    assert_eq!(app.category_name, "");
    assert_eq!(app.user_id, 1000);
    let cat = policy_input_from(PolicyTarget::Category("Games".into()), &form, 1);
    assert_eq!(cat.name, "policy-cat-Games");
    assert_eq!(cat.app_class, "_");
    let dom = policy_input_from(PolicyTarget::Domain("*.x.org".into()), &form, 1);
    assert_eq!(dom.name, "policy-domain-*.x.org");
    assert_eq!(dom.domain_pattern, "*.x.org");
    form.kind = "Whatever".into();
    let any = policy_input_from(PolicyTarget::Any, &form, 1);
    assert_eq!(any.name, "policy-any-Whatever");
    assert_eq!(any.effect, Effect::Block);
}

#[test]
fn recompute_keeps_selection_and_clears_errors() {
    let mut vm = PoliciesViewModel::default();
    vm.validation_errors.push("bad".into());
    vm.selected_policy = Some((PolicyTarget::Any, PolicyConfigForm::default()));
    vm.recompute_derived();
    assert!(vm.validation_errors.is_empty() && vm.policies.is_empty());
    vm.data = Some(PoliciesData {
        policies: vec![policy(1, TargetType::App, Effect::Allow)],
        categories: vec![],
        app_list: vec![wellbeing_gui::dashboard::AppCategoryRow { app_class: "firefox".into(), display_name: "Firefox".into(), category: 0 }],
    });
    vm.recompute_derived();
    assert_eq!(vm.app_list, vec!["firefox".to_string()]);
    assert_eq!(vm.policies.len(), 1);
    assert!(vm.selected_policy.is_some());
    let vm2 = build_policies_viewmodel(&vec![], &vec![], &vec!["a".into()], true);
    assert!(vm2.is_admin && vm2.data.is_none() && vm2.app_list.len() == 1);
}

#[test]
fn policy_list_sections_and_rows() {
    let ps = vec![
        policy(1, TargetType::Domain, Effect::Block),
        policy(2, TargetType::App, Effect::Notify),
        policy(3, TargetType::App, Effect::TimeLimit),
    ];
    assert_eq!(policy_sections(&ps), vec![TargetType::App, TargetType::Domain]);
    assert_eq!(section_item_count(&ps, 0), 2);
    assert_eq!(section_item_count(&ps, 1), 1);
    assert_eq!(section_item_count(&ps, 2), 0);
    assert_eq!(section_item_index(&ps, 0, 1), Some(2));
    assert_eq!(section_item_index(&ps, 1, 0), Some(0));
    assert_eq!(section_item_index(&ps, 0, 2), None);
    assert_eq!(section_item_index(&ps, 5, 0), None);
    assert_eq!(section_label(TargetType::Any), "All Targets");
    assert_eq!(effect_label(Effect::TimeLimit), "Time Limit");
    assert_eq!(target_label(&ps[0]), "Domain: *.example.com");
    let mut c = policy(4, TargetType::Category, Effect::Block);
    assert_eq!(target_label(&c), "Category: uncategorized");
    c.category_name = "Social".into();
    assert_eq!(target_label(&c), "Category: Social");
    assert_eq!(target_of_policy(&c), PolicyTarget::Category("Social".into()));
    assert_eq!(kind_of_effect(Effect::TimeLimit), "TimeLimit");
    let form = form_of_policy(&ps[1], vec![]);
    assert_eq!(form.kind, "Notify");
    assert_eq!(form.schedule_new_day_mask, 0x7F);
    assert_eq!(toggle_edited_policy(Some(2), 2), None);
    assert_eq!(toggle_edited_policy(Some(2), 3), Some(3));
}

#[test]
fn schedule_editor_helpers() {
    assert_eq!(day_mask_label(0x7F), "All");
    assert_eq!(day_mask_label(0), "\u{2014}");
    assert_eq!(day_mask_label(0b0100_0011), "Sun,Mon,Sat");
    assert_eq!(day_mask_label(0x80), "");
    assert_eq!(minute_label(9 * 60 + 5), "09:05");
    assert_eq!(minute_label(23 * 60 + 59), "23:59");
    assert_eq!(toggle_day(0x7F, 0), 0x7E);
    assert_eq!(toggle_day(0, 6), 0x40);
    let mut s = vec![TimeWindow { day_mask: 1, start_minute: 0, end_minute: 60 }, TimeWindow { day_mask: 2, start_minute: 5, end_minute: 9 }];
    remove_schedule(&mut s, 5);
    assert_eq!(s.len(), 2);
    remove_schedule(&mut s, 0);
    assert_eq!(s[0].day_mask, 2);
    assert_eq!(step_time_limit(0, false), 0);
    assert_eq!(step_time_limit(5, true), 6);
    assert_eq!(step_priority(1, false), 1);
    assert_eq!(step_priority(3, false), 2);
}

#[test]
fn unedited_form_saves_the_same_policy_settings() {
    for (tt, effect) in [
        (TargetType::App, Effect::TimeLimit),
        (TargetType::Category, Effect::Allow),
        (TargetType::Domain, Effect::Notify),
        (TargetType::Any, Effect::Block),
    ] {
        let mut p = policy(7, tt, effect);
        p.category_name = "Games".into();
        let form = form_of_policy(&p, vec![]);
        let input = policy_input_from(target_of_policy(&p), &form, p.user_id);
        assert_eq!(input.effect, p.effect);
        assert_eq!(input.target_type, p.target_type);
        assert_eq!(input.priority, p.priority);
        assert_eq!(input.time_limit_minutes, p.time_limit_minutes);
        assert_eq!(input.schedule_json, p.schedule_json);
        assert_eq!(input.user_id, p.user_id);
        match tt {
            TargetType::App => assert_eq!(input.app_class, p.app_class),
            TargetType::Category => assert_eq!(input.category_name, p.category_name),
            TargetType::Domain => assert_eq!(input.domain_pattern, p.domain_pattern),
            TargetType::Any => {}
        }
    }
}

#[test]
fn number_fields_parse_decimal_or_fall_back() {
    assert_eq!(number_field_value("42", 0), 42);
    assert_eq!(number_field_value("-7", 0), -7);
    assert_eq!(number_field_value("+15", 0), 15);
    assert_eq!(number_field_value("", 100), 100);
    assert_eq!(number_field_value(" 5", 100), 100);
    assert_eq!(number_field_value("1e3", 0), 0);
    assert_eq!(number_field_value("9223372036854775807", 0), i64::MAX);
    assert_eq!(number_field_value("9223372036854775808", 1), 1);
    assert_eq!(number_field_value("-", 3), 3);
    // a stepped field: the time limit never goes below 0, the priority never below 1
    assert_eq!(step_time_limit(number_field_value("oops", 0), false), 0);
    assert_eq!(step_priority(number_field_value("", 100), false), 99);
}

#[test]
fn sections_list_every_policy_once() {
    let policies = vec![
        policy(1, TargetType::Domain, Effect::Block),
        policy(2, TargetType::App, Effect::Allow),
        policy(3, TargetType::App, Effect::Notify),
        policy(4, TargetType::Any, Effect::Block),
    ];
    let sections = policy_sections(&policies);
    assert_eq!(sections, vec![TargetType::App, TargetType::Domain, TargetType::Any]);
    let total: usize = (0..sections.len()).map(|s| section_item_count(&policies, s)).sum();
    assert_eq!(total, policies.len());
    assert_eq!(section_item_count(&policies, 3), 0);
}

#[test]
fn saving_takes_the_editor_fields() {
    let mut form = PolicyConfigForm::default();
    apply_editor_fields(&mut form, "45", "", Some("kitty".to_string()), "[]".to_string());
    assert_eq!(form.time_limit_minutes, 45);
    assert_eq!(form.priority, 100);
    assert_eq!(form.app_class, "kitty");
    apply_editor_fields(&mut form, "forever", "7", None, "[{}]".to_string());
    assert_eq!(form.time_limit_minutes, 0);
    assert_eq!(form.priority, 7);
    assert_eq!(form.app_class, "kitty");
    assert_eq!(form.schedule_json, "[{}]");
    assert_eq!(form.kind, "Block");
}

#[test]
fn adding_a_schedule_window_from_clock_fields() {
    let mut form = PolicyConfigForm::default();
    form.schedule_new_day_mask = 0b0011110;
    assert!(add_schedule_window(&mut form, "9", "30", "17", "05"));
    assert_eq!(form.schedules.len(), 1);
    assert_eq!(form.schedules[0].start_minute, 570);
    assert_eq!(form.schedules[0].end_minute, 1025);
    assert_eq!(form.schedules[0].day_mask, 0b0011110);
    assert_eq!(form.schedule_new_day_mask, 0x7F);
    // hours and minutes are capped; unreadable fields count as 0
    assert!(add_schedule_window(&mut form, "99", "75", "x", "+5"));
    assert_eq!(form.schedules[1].start_minute, 23 * 60 + 59);
    assert_eq!(form.schedules[1].end_minute, 5);
    // an empty window is not added
    form.schedule_new_day_mask = 1;
    assert!(!add_schedule_window(&mut form, "8", "0", "08", "-0"));
    assert_eq!(form.schedules.len(), 2);
    assert_eq!(form.schedule_new_day_mask, 1);
}

#[test]
fn editor_heading_fields_and_target_switch() {
    assert_eq!(editing_label(&PolicyTarget::App("kitty".into())), "Editing app: kitty");
    assert_eq!(editing_label(&PolicyTarget::Category("Games".into())), "Editing category: Games");
    assert_eq!(editing_label(&PolicyTarget::Domain("*.x.org".into())), "Editing domain: *.x.org");
    assert_eq!(editing_label(&PolicyTarget::Any), "Editing: All targets");
    let mut form = PolicyConfigForm::default();
    assert!(!shows_time_limit(&form));
    form.kind = "Notify".into();
    assert!(shows_time_limit(&form));
    form.kind = "TimeLimit".into();
    assert!(shows_time_limit(&form));
    form.app_class = "code".into();
    form.category_name = "Work".into();
    assert_eq!(target_for_type(TargetType::App, &form), PolicyTarget::App("code".into()));
    assert_eq!(target_for_type(TargetType::Domain, &form), PolicyTarget::App("code".into()));
    assert_eq!(target_for_type(TargetType::Category, &form), PolicyTarget::Category("Work".into()));
    assert_eq!(target_for_type(TargetType::Any, &form), PolicyTarget::Any);
}

#[test]
fn editor_save_and_delete_steps() {
    let mut ed = PolicyEditor { edit: None, edit_id: None, last_synced_id: None };
    assert!(ed.save_request(1000).is_none());
    assert!(!ed.sync_inputs());
    let p = policy(5, TargetType::App, Effect::Block);
    ed.edit = Some((target_of_policy(&p), form_of_policy(&p, vec![])));
    ed.edit_id = Some(5);
    assert!(ed.sync_inputs());
    assert!(!ed.sync_inputs());
    match ed.save_request(1000) {
        Some(SaveRequest::Update(id, input)) => {
            assert_eq!(id, 5);
            assert_eq!(input.name, "policy-firefox");
            assert_eq!(input.user_id, 1000);
        }
        other => panic!("unexpected {other:?}"),
    }
    ed.finish_save(false);
    assert!(ed.edit.is_some());
    assert_eq!(ed.delete_request(), Some(5));
    ed.edit_id = None;
    assert!(matches!(ed.save_request(7), Some(SaveRequest::Create(_))));
    ed.finish_save(true);
    assert!(ed.edit.is_none() && ed.edit_id.is_none());
    ed.edit = Some((PolicyTarget::Any, PolicyConfigForm::default()));
    ed.edit_id = Some(9);
    ed.finish_delete();
    assert!(ed.edit.is_none() && ed.edit_id.is_none());
}

#[test]
fn refetched_view_model_after_save() {
    let data = PoliciesData {
        policies: vec![policy(1, TargetType::Any, Effect::Notify)],
        categories: vec![],
        app_list: vec![],
    };
    let vm = PoliciesViewModel::from_refetch(data, true);
    assert!(vm.is_admin && vm.selected_policy.is_none());
    assert_eq!(vm.policies.len(), 1);
    assert!(vm.data.is_some());
}

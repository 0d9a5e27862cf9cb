use rustc_hash::FxHashMap;
use zip_templates::ZipTemplate;

fn mapping(pairs: &[(&str, &str)]) -> FxHashMap<String, String> {
    let mut flat = FxHashMap::default();
    for (key, value) in pairs {
        flat.insert(key.to_string(), value.to_string());
    }
    flat
}

#[test]
fn missing_key_renders_as_nothing() {
    let parsed = ZipTemplate::parse("Hi, {{name}}!");
    assert_eq!(parsed.render(&mapping(&[])), "Hi, !");
    assert_eq!(parsed.render(&mapping(&[("other", "x")])), "Hi, !");
}

#[test]
fn fewer_values_than_slots_leave_the_rest_empty() {
    let parsed = ZipTemplate::parse("{{a}},{{b}},{{c}}");
    assert_eq!(parsed.render_from_vec(&["1"]), "1,,");
    assert_eq!(parsed.render_from_vec(&["1", "2"]), "1,2,");
    assert_eq!(parsed.render_from_vec(&[]), ",,");
}

#[test]
fn values_without_a_slot_are_left_out() {
    let parsed = ZipTemplate::parse("{{a}}");
    assert_eq!(parsed.render_from_vec(&["X", "Y", "Z"]), "X");
    let parsed = ZipTemplate::parse("a{{k}}b");
    assert_eq!(parsed.render_from_vec(&["1", "2"]), "a1b");
    let parsed = ZipTemplate::parse("plain");
    assert_eq!(parsed.render_from_vec(&["X"]), "plain");
}

#[test]
fn positions_count_and_keys_do_not() {
    let parsed = ZipTemplate::parse("{{b}}-{{a}}-{{b}}");
    assert_eq!(parsed.render_from_vec(&["1", "2", "3"]), "1-2-3");
}

#[test]
fn plain_text_is_rendered_as_it_stands() {
    for template in ["", "static text only", "a }} b", "abc {{x", "{ } {a}", "日本語 ✓"] {
        let parsed = ZipTemplate::parse(template);
        assert_eq!(parsed.render(&mapping(&[])), template);
        assert_eq!(parsed.render(&mapping(&[("x", "1"), ("", "2")])), template);
        assert_eq!(parsed.render_from_vec(&[]), template);
    }
}

#[test]
fn the_key_behind_the_last_segment_is_not_looked_up() {
    let flat = mapping(&[("", "zzz"), ("a", "1")]);
    assert_eq!(ZipTemplate::parse("abc").render(&flat), "abc");
    assert_eq!(ZipTemplate::parse("x{{a}}y").render(&flat), "x1y");
}

#[test]
fn the_empty_key_of_a_placeholder_is_looked_up() {
    let flat = mapping(&[("", "X")]);
    assert_eq!(ZipTemplate::parse("a{{}}b").render(&flat), "aXb");
    assert_eq!(ZipTemplate::parse("a{{  }}b{{}}").render(&flat), "aXbX");
}

#[test]
fn every_supplied_key_is_replaced_by_its_value() {
    let template = "Dear {{ title }} {{name}}, your order {{order.id}} ships to {{ city }}.";
    let flat = mapping(&[
        ("title", "Dr."),
        ("name", "Ada"),
        ("order.id", "#42"),
        ("city", "Zürich"),
    ]);
    let out = ZipTemplate::parse(template).render(&flat);
    assert_eq!(out, "Dear Dr. Ada, your order #42 ships to Zürich.");
    assert!(!out.contains("{{"));
    assert!(!out.contains("}}"));
}

#[test]
fn one_key_may_stand_in_many_places() {
    let flat = mapping(&[("a", "1")]);
    assert_eq!(ZipTemplate::parse("{{a}}{{a}} {{ a }}").render(&flat), "11 1");
}

#[test]
fn values_are_taken_as_they_are() {
    let flat = mapping(&[("a", "  spaced  "), ("b", "{{a}}"), ("c", "")]);
    assert_eq!(ZipTemplate::parse("[{{a}}][{{b}}][{{c}}]").render(&flat), "[  spaced  ][{{a}}][]");
}

#[test]
fn keys_are_whole_and_match_exactly() {
    let flat = mapping(&[("user", "u"), ("user.name", "n"), ("User.name", "N")]);
    let parsed = ZipTemplate::parse("{{user}} {{user.name}} {{user.name.first}} {{USER}}");
    assert_eq!(parsed.render(&flat), "u n  ");
}

#[test]
fn rendered_text_without_braces_in_values_has_no_placeholder() {
    let flat = mapping(&[("a", "x}}"), ("b", ""), ("c", "}")]);
    for template in ["{{a}}{{b}}{{c}}", "{{{b}}{", "{{b}}{{{b}}{", "}}{{a}} {{ {{c}} }}", "{{a}} {{b"] {
        let out = ZipTemplate::parse(template).render(&flat);
        let again = ZipTemplate::parse(&out);
        assert_eq!(again.statics, [out.clone()], "{template:?}");
        assert_eq!(again.placeholders, [""], "{template:?}");
    }
}

#[test]
fn rendering_twice_gives_the_same_text() {
    let parsed = ZipTemplate::parse("Hi, {{user.name.first}} — {{missing}} {{n}}.");
    let flat = mapping(&[("user.name.first", "Sam"), ("n", "5")]);
    let first = parsed.render(&flat);
    let second = parsed.render(&flat);
    assert_eq!(first, second);
    assert_eq!(first, "Hi, Sam —  5.");
    let values = ["Sam", "", "5"];
    assert_eq!(parsed.render_from_vec(&values), parsed.render_from_vec(&values));
    assert_eq!(parsed.render_from_vec(&values), first);
    assert_eq!(parsed.statics, ["Hi, ", " — ", " ", "."]);
    assert_eq!(parsed.placeholders, ["user.name.first", "missing", "n", ""]);
}

#[test]
fn one_parse_serves_many_mappings() {
    let parsed = ZipTemplate::parse("{{greeting}}, {{name}}!");
    assert_eq!(parsed.render(&mapping(&[("greeting", "Hi"), ("name", "A")])), "Hi, A!");
    assert_eq!(parsed.render(&mapping(&[("greeting", "Yo"), ("name", "B")])), "Yo, B!");
    assert_eq!(parsed.clone().render(&mapping(&[("name", "C")])), ", C!");
}

#[test]
fn any_capacity_gives_the_same_text() {
    let flat = mapping(&[("name", "World")]);
    for capacity in [0usize, 1, 13, 4096, usize::MAX / 2, usize::MAX] {
        let parsed = ZipTemplate::parse_with_capacity("Hello, {{name}}!", capacity);
        assert_eq!(parsed.render(&flat), "Hello, World!");
        assert_eq!(parsed.render_from_vec(&["World"]), "Hello, World!");
    }
}

#[test]
fn a_template_built_by_hand_is_rendered_by_its_segments() {
    let built = ZipTemplate {
        statics: vec!["a".to_string(), "b".to_string(), "c".to_string()],
        placeholders: vec!["k".to_string()],
        pre_emptive_size: 0,
    };
    assert_eq!(built.render(&mapping(&[("k", "1")])), "a1bc");
    assert_eq!(built.render_from_vec(&["1", "2", "3"]), "a1b2c");
    let none = ZipTemplate { statics: Vec::new(), placeholders: vec!["k".to_string()], pre_emptive_size: 0 };
    assert_eq!(none.render(&mapping(&[("k", "1")])), "");
    assert_eq!(none.render_from_vec(&["1"]), "");
}

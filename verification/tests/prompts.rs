use brain::prompts::{
    finish_render, is_tame, name_in_header, render, strip_header, PromptRegistry, PromptTemplate,
};
use brain::prompts_embedded::EmbeddedPromptRegistry;
use brain::template_tags::{is_tame_body, MAX_ELIFS, MAX_LINE, MAX_LINKS};
use brain::testing::prompt_registry::MockPromptRegistry;

#[test]
fn render_treats_missing_conditional_vars_as_absent() {
    let template = PromptTemplate {
        name: "system",
        template: "#system\nBase{% if recalled %}\n<recalled>{{ recalled }}</recalled>{% endif %}",
    };

    let rendered = render(&template, &[]).unwrap();

    assert_eq!(rendered, "Base");
}

#[test]
fn render_includes_supplied_conditional_vars() {
    let template = PromptTemplate {
        name: "system",
        template: "#system\nBase{% if recalled %}\n<recalled>{{ recalled }}</recalled>{% endif %}",
    };

    let rendered = render(&template, &[("recalled", "Prior summary")]).unwrap();

    assert_eq!(rendered, "Base\n<recalled>Prior summary</recalled>");
}

#[test]
fn render_reports_the_template_that_failed() {
    let template = PromptTemplate {
        name: "broken",
        template: "{% if recalled %}",
    };
    assert!(is_tame(template.template));
    let error = render(&template, &[]).unwrap_err();
    assert!(error
        .message
        .starts_with("failed to render prompt 'broken': "));
}

#[test]
fn rendered_text_is_trimmed() {
    assert_eq!(
        finish_render("t", Ok("  text \n".to_string())).unwrap(),
        "text"
    );
    assert_eq!(
        finish_render("t", Err("why".to_string()))
            .unwrap_err()
            .message,
        "failed to render prompt 't': why"
    );
}

#[test]
fn header_is_stripped_only_when_it_is_one() {
    assert_eq!(strip_header("#name\nbody\n"), "body\n");
    assert_eq!(strip_header("  #name\nbody"), "body");
    assert_eq!(strip_header("body\n#name"), "body\n#name");
    assert_eq!(strip_header("#name"), "#name");
}

#[test]
fn header_names_the_template() {
    assert_eq!(name_in_header("#system\nbody"), "system");
    assert_eq!(name_in_header("## spaced \nbody"), "spaced");
}

#[test]
fn embedded_registry_holds_the_templates() {
    let registry = EmbeddedPromptRegistry::new();
    let mut names = registry.names();
    names.sort();
    assert_eq!(
        names,
        vec![
            "detect_topic_shift",
            "summarize_base",
            "summarize_compaction",
            "summarize_topic_shift",
            "system",
        ]
    );
    assert_eq!(registry.get("system").unwrap().name, "system");
    assert!(registry.get("missing").is_none());
    assert_eq!(EmbeddedPromptRegistry::default().names().len(), 5);
}

#[test]
fn later_template_replaces_an_earlier_one() {
    let registry = MockPromptRegistry::new()
        .with_template("system", "old")
        .with_template("system", "new");
    assert_eq!(registry.names(), vec!["system"]);
    let template = registry.get("system").unwrap();
    assert_eq!(render(template, &[]).unwrap(), "new");
}

#[test]
fn plain_tags_are_tame_and_render() {
    let template = PromptTemplate {
        name: "t",
        template: "#t\n{% for c in word -%}{{ c|upper }}{{ loop.index }}.{% endfor %}{% if not word %}none{% elif word %} information in a \"format\" [1] * 2{% else %}?{% endif %}",
    };
    assert!(is_tame(template.template));
    assert_eq!(
        render(&template, &[("word", "ab")]).unwrap(),
        "A1.B2. information in a \"format\" [1] * 2"
    );
}

#[test]
fn ordinary_templates_are_tame_and_render() {
    for (body, expected) in [
        ("{{ information }}", "told"),
        ("{{ output_format }}", "JSON"),
        ("{% if a == b %}same{% else %}other{% endif %}", "other"),
        ("{% if a != b and a < b %}less{% endif %}", "less"),
        ("{% if a == \"x\" %}x{% elif a == 'y' %}y{% endif %}", "x"),
        ("{{ missing|default(a) }}", "x"),
        ("{{ missing|default(\"none, yet\") }}", "none, yet"),
        ("{{ word|list|join(\", \") }}", "a, b"),
        ("{{ word|replace(\"a\", \"c\")|trim(\"b\") }}", "c"),
        ("{% set c = a %}{{ c ~ b }}", "xy"),
        ("{% set c = word|list|join(\"-\") %}{{ c }}", "a-b"),
        ("{% with c = a, d = b %}{{ d ~ c }}{% endwith %}", "yx"),
        ("{% for c in word %}{{ loop.index + 1 }}{% endfor %}", "23"),
        ("{{ \"<\" + a }}", "<x"),
        ("{{ word[1] }}{{ word[-1] }}{{ (word)[0] }}", "bba"),
        ("{{ word[:1] }}{{ word[1:] }}{{ word[-2:-1] }}", "aba"),
        ("{% if a in [\"x\", \"z\"] %}in{% endif %}", "in"),
        ("{{ [a, b]|join(\"/\") }}{{ []|length }}", "x/y0"),
        ("{% for i in range(3) %}{{ i }}{% endfor %}", "012"),
        ("{% for i in range(1, 3) %}{{ i }}{% endfor %}", "12"),
        ("{% for c in word %}{{ loop.cycle(\"odd\", \"even\") }}{% endfor %}", "oddeven"),
        ("{# {{ a }} #}{% raw %}{{ a }}{% endraw %}", "{{ a }}"),
        ("{% if (a or b) and not (missing) %}yes{% endif %}", "yes"),
        ("{% if missing is not defined %}no{% endif %}", "no"),
        ("{% if word is startingwith(\"a\") %}yes{% endif %}", "yes"),
        ("{% if a in word %}in{% else %}out{% endif %}", "out"),
        ("{% filter upper %}{{ word }}{% endfilter %}", "AB"),
        ("{%- if word -%} {{ word|upper }} {%- endif +%}", "AB"),
        ("{{ word if a else b }}", "ab"),
        ("{{ divisibleby }}{{ block }}{{ format }}", ""),
    ] {
        assert!(is_tame_body(body), "{body}");
        let template = PromptTemplate {
            name: "t",
            template: body,
        };
        let vars = [
            ("information", "told"),
            ("output_format", "JSON"),
            ("a", "x"),
            ("b", "y"),
            ("word", "ab"),
        ];
        assert_eq!(render(&template, &vars).unwrap(), expected, "{body}");
    }
}

#[test]
fn templates_that_could_harm_are_not_tame() {
    for body in [
        "{% for x in [1] %}{{ loop.cycle() }}{% endfor %}",
        "{% for x in y %}{{ (loop.cycle)() }}{% endfor %}",
        "{% for x in y recursive %}{{ loop(y) }}{% endfor %}",
        "{{ \"%.70000f\"|format(1.5) }}",
        "{{ summary|format }}",
        "{{ summary |\n\x0Cformat }}",
        "{% filter format %}%d{% endfilter %}",
        "{% set x | format %}%d{% endset %}",
        "{{ \"\"[::-1] }}",
        "{{ x[::-1] }}",
        "{{ x|batch(99999999999999) }}",
        "{{ x|slice(99999999999999) }}",
        "{{ x|indent(99999999999999) }}",
        "{{ ([1] * 99999999999999)|list }}",
        "{{ x * 99999999999999 }}",
        "{{ x|list + x|list }}",
        "{{ x|list + \"a\" \"b\"|list }}",
        "{{ x.0 + x.0 }}",
        "{{ x|chain(x) }}",
        "{{ x|zip(x) }}",
        "{{ x|map(x) }}",
        "{{ x|select(x) }}",
        "{{ 3 is divisibleby 0 }}",
        "{{ 3 is divisibleby(0) }}",
        "{{ 3 is not divisibleby 0 }}",
        "{% set x = x, %}",
        "{% set x = (x, x) %}",
        "{% set x = [x] %}",
        "{% set x = y|default(x=x) %}",
        "{% macro m %}",
        "{% block b %}",
        "{%- call m %}",
        "{% do x %}",
        "{{ range() }}",
        "{{ range(0, 9223372036854775807, x) }}",
        "{% set x = x[:1] %}",
        "{% with x = [x] %}{{ x }}{% endwith %}",
        "{{ [[x]] }}",
        "{{ dict(x) }}",
        "{{ {1: 2} }}",
        "{{ \"\\\"|format }}",
        "{{ \"}}\" }}",
        "{{ \"x }}",
        "{{ 1x }}",
        "{{ x",
        "{{ x }",
        "{% if x }}",
        "{%}",
    ] {
        assert!(!is_tame_body(body), "{body}");
    }
}

#[test]
fn tame_bodies_are_bounded() {
    let line = "x".repeat(MAX_LINE);
    assert!(is_tame_body(&line));
    assert!(!is_tame_body(&format!("{line}x")));
    assert!(is_tame_body(&format!("{line}\n{line}\n{line}")));

    let chain = |n: usize| format!("{{% if x %}}{}{{% endif %}}", "{% elif x %}".repeat(n));
    assert!(is_tame_body(&chain(MAX_ELIFS)));
    assert!(!is_tame_body(&chain(MAX_ELIFS + 1)));
    assert!(is_tame_body(&chain(MAX_ELIFS).repeat(3)));
    assert!(!is_tame_body(&format!(
        "{{% if x %}}{}{{% endif %}}",
        chain(MAX_ELIFS).repeat(2)
    )));
    assert!(!is_tame_body(&format!(
        "{{# {{% endif %}} #}}{}",
        chain(MAX_ELIFS).repeat(2)
    )));

    let negated = |n: usize| format!("{{{{ {}x }}}}", "not ".repeat(n));
    assert!(is_tame_body(&negated(MAX_LINKS)));
    assert!(!is_tame_body(&negated(MAX_LINKS + 1)));

    assert!(is_tame_body(&"{{x}}\n".repeat(1000)));
    assert!(is_tame_body(&format!("{{{{{}}}}}", "x".repeat(1000))));
    assert!(is_tame_body(""));
    assert!(is_tame_body("{"));
    assert!(is_tame_body("a { b } c"));
}

#[test]
fn the_largest_tame_bodies_render() {
    let vars = [("x", "yes")];
    for (body, expected) in [
        (
            format!(
                "{{% if no %}}{}{{% elif x %}}yes{{% endif %}}",
                "{% elif no %}".repeat(MAX_ELIFS - 1)
            ),
            "yes".to_string(),
        ),
        (
            format!("{{{{ {}x }}}}", "not ".repeat(MAX_LINKS)),
            "True".to_string(),
        ),
        (
            format!("{{{{ x{} }}}}", "|upper".repeat(MAX_LINKS)),
            "YES".to_string(),
        ),
        (
            format!("{{{{ x{} }}}}", " and x".repeat(MAX_LINKS)),
            "yes".to_string(),
        ),
        (
            "{{x}}\n".repeat(1000),
            "yes\n".repeat(1000).trim().to_string(),
        ),
        (
            "long line\n".repeat(10_000),
            "long line\n".repeat(10_000).trim().to_string(),
        ),
        ("{% set x = x ~ 'a' %}".repeat(500), String::new()),
    ] {
        let body: &'static str = Box::leak(body.into_boxed_str());
        assert!(is_tame_body(body));
        let template = PromptTemplate {
            name: "t",
            template: body,
        };
        assert_eq!(render(&template, &vars).unwrap(), expected);
    }
}

#[test]
fn built_in_templates_are_tame_and_have_the_names_that_are_asked_for() {
    let registry = EmbeddedPromptRegistry::new();
    for name in [
        "system",
        "summarize_base",
        "summarize_topic_shift",
        "summarize_compaction",
        "detect_topic_shift",
    ] {
        let template = registry.get(name).unwrap();
        assert!(is_tame(template.template), "{name}");
    }
    assert_eq!(registry.names().len(), 5);
}

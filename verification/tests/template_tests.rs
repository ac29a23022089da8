use swall_core::template::{
    permutate_segments, CommandConfig, Segment, SubcommandConfig, TemplateConfig,
};

fn single(cmd: &str) -> SubcommandConfig {
    SubcommandConfig::Single(CommandConfig::Command(cmd.to_string()))
}

fn lit(s: &str) -> Segment {
    Segment::Literal(s.to_string())
}

fn rep(s: &str) -> Segment {
    Segment::Replace(s.to_string())
}

#[test]
fn test_segment_build_from_template() {
    let template = TemplateConfig {
        template: "wow".to_owned(),
        replace: vec![("sub".to_owned(), single(""))],
    };
    assert_eq!(Segment::build_from_template(&template), vec![lit("wow")]);

    let template = TemplateConfig {
        template: "wow sub".to_owned(),
        replace: vec![("sub".to_owned(), single("test"))],
    };
    assert_eq!(Segment::build_from_template(&template), vec![lit("wow "), rep("sub")]);

    let template = TemplateConfig {
        template: "wow sub more".to_owned(),
        replace: vec![("sub".to_owned(), single("test"))],
    };
    assert_eq!(
        Segment::build_from_template(&template),
        vec![lit("wow "), rep("sub"), lit(" more")]
    );

    let template = TemplateConfig {
        template: "wow sub more".to_owned(),
        replace: vec![
            ("sub".to_owned(), single("test")),
            ("wow".to_owned(), single("t")),
            (" ".to_owned(), single("_")),
        ],
    };
    assert_eq!(
        Segment::build_from_template(&template),
        vec![rep("wow"), rep(" "), rep("sub"), rep(" "), lit("more")]
    );
}

#[test]
fn test_instantiate_plain_commands() {
    assert_eq!(single("echo hi").instantiate(), vec!["echo hi".to_string()]);
    let many = SubcommandConfig::Many(vec![
        CommandConfig::Command("a".to_string()),
        CommandConfig::Command("b".to_string()),
    ]);
    assert_eq!(many.instantiate(), vec!["a".to_string(), "b".to_string()]);
    let none = SubcommandConfig::Many(vec![]);
    assert_eq!(none.instantiate(), Vec::<String>::new());
}

#[test]
fn test_instantiate_single_marker_template() {
    let cfg = SubcommandConfig::Single(CommandConfig::Template(TemplateConfig {
        template: "run N".to_string(),
        replace: vec![(
            "N".to_string(),
            SubcommandConfig::Many(vec![
                CommandConfig::Command("1".to_string()),
                CommandConfig::Command("2".to_string()),
            ]),
        )],
    }));
    assert_eq!(cfg.instantiate(), vec!["run 1".to_string(), "run 2".to_string()]);
}

#[test]
fn test_instantiate_two_markers_cycle_order() {
    // markers enumerate in marker order, the first marker fastest
    let cfg = SubcommandConfig::Single(CommandConfig::Template(TemplateConfig {
        template: "A-B".to_string(),
        replace: vec![
            (
                "B".to_string(),
                SubcommandConfig::Many(vec![
                    CommandConfig::Command("1".to_string()),
                    CommandConfig::Command("2".to_string()),
                ]),
            ),
            (
                "A".to_string(),
                SubcommandConfig::Many(vec![
                    CommandConfig::Command("x".to_string()),
                    CommandConfig::Command("y".to_string()),
                ]),
            ),
        ],
    }));
    assert_eq!(
        cfg.instantiate(),
        vec!["x-1".to_string(), "y-1".to_string(), "x-2".to_string(), "y-2".to_string()]
    );
}

#[test]
fn test_instantiate_nested_template() {
    let inner = CommandConfig::Template(TemplateConfig {
        template: "go D".to_string(),
        replace: vec![(
            "D".to_string(),
            SubcommandConfig::Many(vec![
                CommandConfig::Command("up".to_string()),
                CommandConfig::Command("down".to_string()),
            ]),
        )],
    });
    let cfg = SubcommandConfig::Single(CommandConfig::Template(TemplateConfig {
        template: "try: C".to_string(),
        replace: vec![("C".to_string(), SubcommandConfig::Single(inner))],
    }));
    assert_eq!(
        cfg.instantiate(),
        vec!["try: go up".to_string(), "try: go down".to_string()]
    );
}

#[test]
fn test_template_without_markers_is_one_command() {
    let cfg = SubcommandConfig::Single(CommandConfig::Template(TemplateConfig {
        template: "plain".to_string(),
        replace: vec![],
    }));
    assert_eq!(cfg.instantiate(), vec!["plain".to_string()]);
}

#[test]
fn test_marker_with_no_values_yields_nothing() {
    let cfg = SubcommandConfig::Single(CommandConfig::Template(TemplateConfig {
        template: "run N".to_string(),
        replace: vec![("N".to_string(), SubcommandConfig::Many(vec![]))],
    }));
    assert_eq!(cfg.instantiate(), Vec::<String>::new());
}

#[test]
fn test_permutate_segments_direct() {
    let template = TemplateConfig {
        template: "a K".to_string(),
        replace: vec![(
            "K".to_string(),
            SubcommandConfig::Many(vec![
                CommandConfig::Command("p".to_string()),
                CommandConfig::Command("q".to_string()),
            ]),
        )],
    };
    let segments = Segment::build_from_template(&template);
    assert_eq!(
        permutate_segments(&template, &segments),
        vec!["a p".to_string(), "a q".to_string()]
    );
}

use os_apps::skills::{
    normalize_skill_key, parse_skill_frontmatter, scope_priority, skill_name_from_path,
    strip_skill_frontmatter, xml_escape,
};

#[test]
fn strip_yaml_frontmatter_normal() {
    let input = "---\nname: foo\ndescription: bar\n---\n# Body\nContent here";
    assert_eq!(strip_skill_frontmatter(input), "# Body\nContent here");
}

#[test]
fn strip_yaml_frontmatter_no_body() {
    let input = "---\nname: foo\n---";
    assert_eq!(strip_skill_frontmatter(input), "");
}

#[test]
fn strip_yaml_frontmatter_trailing_newline_only() {
    let input = "---\nname: foo\n---\n";
    assert_eq!(strip_skill_frontmatter(input), "");
}

#[test]
fn strip_toml_frontmatter_normal() {
    let input = "+++\nname = \"foo\"\n+++\n# Body";
    assert_eq!(strip_skill_frontmatter(input), "# Body");
}

#[test]
fn strip_no_frontmatter() {
    let input = "# Just a heading\nSome content";
    assert_eq!(
        strip_skill_frontmatter(input),
        "# Just a heading\nSome content"
    );
}

#[test]
fn strip_empty_string() {
    assert_eq!(strip_skill_frontmatter(""), "");
}

#[test]
fn strip_frontmatter_with_blank_lines_before_body() {
    let input = "---\nname: foo\n---\n\n\n# Body";
    assert_eq!(strip_skill_frontmatter(input), "# Body");
}

#[test]
fn strip_unclosed_frontmatter_keeps_everything() {
    let input = "---\nname: foo\n# Body";
    assert_eq!(strip_skill_frontmatter(input), input);
}

#[test]
fn parse_yaml_frontmatter_reads_quoted_values() {
    let input = "---\nname: \"deploy-helper\"\ndescription: 'Ships things'\nscope: project\n---\nbody";
    assert_eq!(
        parse_skill_frontmatter(input),
        (
            "deploy-helper".to_string(),
            "Ships things".to_string(),
            "project".to_string()
        )
    );
}

#[test]
fn parse_toml_frontmatter_and_default_scope() {
    let input = "+++\nname = \"foo\"\r\n  description=  bar  \n+++\n# Body";
    assert_eq!(
        parse_skill_frontmatter(input),
        ("foo".to_string(), "bar".to_string(), "global".to_string())
    );
    assert_eq!(
        parse_skill_frontmatter("no frontmatter"),
        (String::new(), String::new(), "global".to_string())
    );
}

#[test]
fn parse_frontmatter_later_lines_win() {
    let input = "---\nname: first\nname: second\n---";
    assert_eq!(parse_skill_frontmatter(input).0, "second");
}

#[test]
fn skill_names_and_keys() {
    assert_eq!(skill_name_from_path("/skills/my-skill/SKILL.md"), "my-skill");
    assert_eq!(
        skill_name_from_path("/projects/pid/skills/my-skill/SKILL.md"),
        "my-skill"
    );
    assert_eq!(skill_name_from_path("SKILL.md"), "unknown");
    assert_eq!(skill_name_from_path("//a//b//"), "a");
    assert_eq!(normalize_skill_key("My_Skill Name"), "my-skill-name");
}

#[test]
fn xml_escape_and_scope_priority() {
    assert_eq!(
        xml_escape("<a href=\"x\">&</a>"),
        "&lt;a href=&quot;x&quot;&gt;&amp;&lt;/a&gt;"
    );
    assert_eq!(scope_priority("/agents/paw/skills/x/SKILL.md"), 0);
    assert_eq!(scope_priority("/projects/p/skills/x/SKILL.md"), 1);
    assert_eq!(scope_priority("/system/skills/x/SKILL.md"), 2);
}

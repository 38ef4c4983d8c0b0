use terragrate::command::Command;
use terragrate::element::Element;
use terragrate::format_list::Render;
use terragrate::transformation::{Transformation, TransformationType};

#[test]
fn test_mv_apply_leaves_element_unchanged_if_it_doesnt_apply() {
    let e = Element::Resource("module.public_network.docker_network.network".to_string());
    let t = Transformation {
        kind: TransformationType::MV,
        matcher: "private_network".to_string(),
        replacement: "error".to_string(),
    };
    assert_eq!(e, t.apply(&e).element)
}

#[test]
fn test_mv_apply_empty_command_if_it_doesnt_apply() {
    let e = Element::Resource("module.public_network.docker_network.network".to_string());
    let t = Transformation {
        kind: TransformationType::MV,
        matcher: "private_network".to_string(),
        replacement: "error".to_string(),
    };
    assert_eq!(Command::NoOp, t.apply(&e).command)
}

#[test]
fn test_mv_apply_changes_element() {
    let e = Element::Resource("module.public_network.docker_network.network".to_string());
    let t = Transformation {
        kind: TransformationType::MV,
        matcher: "public_network".to_string(),
        replacement: "private_network".to_string(),
    };
    assert_eq!(
        Element::Resource("module.private_network.docker_network.network".to_string()),
        t.apply(&e).element
    )
}

#[test]
fn test_mv_apply_creates_mv_command() {
    let e = Element::Resource("module.public_network.docker_network.network".to_string());
    let t = Transformation {
        kind: TransformationType::MV,
        matcher: "public_network".to_string(),
        replacement: "private_network".to_string(),
    };
    assert_eq!(
        Command::MV {
            source: e.to_string(),
            target: "module.private_network.docker_network.network".to_string()
        },
        t.apply(&e).command
    )
}

#[test]
fn test_rm_apply_leaves_element_unchanged_if_it_doesnt_apply() {
    let e = Element::Resource("module.public_network.docker_network.network".to_string());
    let t = Transformation {
        kind: TransformationType::RM,
        matcher: "private_network".to_string(),
        replacement: "".to_string(),
    };
    assert_eq!(e, t.apply(&e).element)
}

#[test]
fn test_rm_apply_removes_element() {
    let e = Element::Resource("module.public_network.docker_network.network".to_string());
    let t = Transformation {
        kind: TransformationType::RM,
        matcher: "public_network".to_string(),
        replacement: "".to_string(),
    };
    assert_eq!(Element::Empty, t.apply(&e).element)
}

fn rule(kind: TransformationType, matcher: &str, replacement: &str) -> Transformation {
    Transformation {
        kind,
        matcher: matcher.to_string(),
        replacement: replacement.to_string(),
    }
}

#[test]
fn rm_apply_records_the_removed_address() {
    let e = Element::Resource("module.public_network.docker_network.network".to_string());
    let result = rule(TransformationType::RM, "public_network", "").apply(&e);
    assert_eq!(result.element, Element::Empty);
    assert_eq!(
        result.command,
        Command::RM("module.public_network.docker_network.network".to_string())
    );
    assert_eq!(
        result.command.to_string(),
        "terraform state rm module.public_network.docker_network.network"
    );
}

#[test]
fn rm_apply_gives_no_command_if_it_doesnt_apply() {
    let e = Element::Resource("module.public_network.docker_network.network".to_string());
    let result = rule(TransformationType::RM, "private_network", "").apply(&e);
    assert_eq!(result.command, Command::NoOp);
}

#[test]
fn rm_ignores_its_replacement() {
    let e = Element::Resource("docker_image.image".to_string());
    let result = rule(TransformationType::RM, "image", "picture").apply(&e);
    assert_eq!(result.element, Element::Empty);
    assert_eq!(result.command, Command::RM("docker_image.image".to_string()));
}

#[test]
fn every_rule_leaves_an_empty_place_empty() {
    for t in [
        rule(TransformationType::MV, "public_network", "private_network"),
        rule(TransformationType::MV, "", "x"),
        rule(TransformationType::RM, "public_network", ""),
        rule(TransformationType::RM, "", ""),
    ] {
        let result = t.apply(&Element::Empty);
        assert_eq!(result.element, Element::Empty);
        assert_eq!(result.command, Command::NoOp);
    }
}

#[test]
fn unmatched_rules_change_nothing() {
    let addresses = ["docker_image.image", "a", "", "module.net.docker_network.n"];
    let matchers = ["public_network", "docker_image.images", "x"];
    for address in addresses {
        for matcher in matchers {
            let e = Element::Resource(address.to_string());
            for kind in [TransformationType::MV, TransformationType::RM] {
                let result = rule(kind, matcher, "replacement").apply(&e);
                assert_eq!(result.element, e);
                assert_eq!(result.command, Command::NoOp);
            }
        }
    }
}

#[test]
fn mv_replaces_every_occurrence() {
    let e = Element::Resource("network.docker_network.network".to_string());
    let result = rule(TransformationType::MV, "network", "net").apply(&e);
    assert_eq!(
        result.element,
        Element::Resource("net.docker_net.net".to_string())
    );
    assert_eq!(
        result.command,
        Command::MV {
            source: "network.docker_network.network".to_string(),
            target: "net.docker_net.net".to_string(),
        }
    );
}

#[test]
fn mv_takes_occurrences_from_the_left_without_overlap() {
    let e = Element::Resource("aaaaa".to_string());
    let result = rule(TransformationType::MV, "aa", "b").apply(&e);
    assert_eq!(result.element, Element::Resource("bba".to_string()));
}

#[test]
fn mv_by_the_matcher_itself_gives_no_command() {
    let e = Element::Resource("module.public_network.docker_network.network".to_string());
    let result = rule(TransformationType::MV, "public_network", "public_network").apply(&e);
    assert_eq!(result.element, e);
    assert_eq!(result.command, Command::NoOp);
}

#[test]
fn mv_is_plain_text_not_a_pattern() {
    let e = Element::Resource("docker_image.image".to_string());
    let result = rule(TransformationType::MV, ".", "/").apply(&e);
    assert_eq!(
        result.element,
        Element::Resource("docker_image/image".to_string())
    );
    let untouched = rule(TransformationType::MV, "docker.image", "x").apply(&e);
    assert_eq!(untouched.element, e);
    assert_eq!(untouched.command, Command::NoOp);
}

#[test]
fn mv_can_delete_the_matcher() {
    let e = Element::Resource("module.public_network.docker_network.network".to_string());
    let result = rule(TransformationType::MV, "module.", "").apply(&e);
    assert_eq!(
        result.element,
        Element::Resource("public_network.docker_network.network".to_string())
    );
}

#[test]
fn apply_does_not_change_its_argument() {
    let e = Element::Resource("docker_image.image".to_string());
    let _ = rule(TransformationType::MV, "image", "picture").apply(&e);
    let _ = rule(TransformationType::RM, "image", "").apply(&e);
    assert_eq!(e, Element::Resource("docker_image.image".to_string()));
}

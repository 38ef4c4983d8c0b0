use terragrate::command::{Command, Commands};
use terragrate::format_list::Render;

fn move_to_module() -> Command {
    Command::MV {
        source: "public_network.docker_network.network".to_string(),
        target: "module.public_network.docker_network.network".to_string(),
    }
}

#[test]
fn test_new_filters_noops() {
    let elements = vec![
        Command::NoOp,
        Command::MV {
            source: "public_network.docker_network.network".to_string(),
            target: "module.public_network.docker_network.network".to_string(),
        },
        Command::NoOp,
    ];

    let commands = Commands::new(elements);
    assert_eq!(1, commands.elements.len());
}

#[test]
fn test_move_command_to_string() {
    let command = Command::MV {
        source: "public_network.docker_network.network".to_string(),
        target: "module.public_network.docker_network.network".to_string(),
    };

    assert_eq!("terraform state mv public_network.docker_network.network module.public_network.docker_network.network", command.to_string())
}

#[test]
fn test_rm_command_to_string() {
    let command = Command::RM("public_network.docker_network.network".to_string());

    assert_eq!(
        "terraform state rm public_network.docker_network.network",
        command.to_string()
    )
}

#[test]
fn new_keeps_the_other_commands_in_their_order() {
    let commands = Commands::new(vec![
        Command::RM("a".to_string()),
        Command::NoOp,
        move_to_module(),
        Command::NoOp,
        Command::NoOp,
        Command::RM("b".to_string()),
    ]);

    assert_eq!(
        commands.elements,
        vec![
            Command::RM("a".to_string()),
            move_to_module(),
            Command::RM("b".to_string()),
        ]
    );
}

#[test]
fn new_of_nothing_is_empty() {
    assert_eq!(Commands::new(vec![]).elements, vec![]);
    assert_eq!(
        Commands::new(vec![Command::NoOp, Command::NoOp]).elements,
        vec![]
    );
}

#[test]
fn filtering_twice_is_filtering_once() {
    let once = Commands::new(vec![
        Command::NoOp,
        move_to_module(),
        Command::RM("docker_image.image".to_string()),
        Command::NoOp,
    ]);
    let expected = vec![
        move_to_module(),
        Command::RM("docker_image.image".to_string()),
    ];
    assert_eq!(once.elements, expected);

    let twice = Commands::new(once.elements);
    assert_eq!(twice.elements, expected);
}

#[test]
fn commands_render_one_line_each() {
    let commands = Commands::new(vec![
        move_to_module(),
        Command::NoOp,
        Command::RM("docker_image.image".to_string()),
    ]);

    assert_eq!(
        commands.to_string(),
        "terraform state mv public_network.docker_network.network module.public_network.docker_network.network\nterraform state rm docker_image.image"
    );
}

#[test]
fn no_commands_render_as_nothing() {
    assert_eq!(Commands::new(vec![]).to_string(), "");
}

#[test]
fn command_with_empty_addresses_keeps_its_spaces() {
    let command = Command::MV {
        source: String::new(),
        target: String::new(),
    };
    assert_eq!(command.to_string(), "terraform state mv  ");
    assert_eq!(Command::RM(String::new()).to_string(), "terraform state rm ");
}

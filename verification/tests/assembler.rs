use image_splitter::assembler::{
    build_forward_nodes, choose_delivery, image_file, inline_files, sender_identity, Conversation,
    Delivery, ForwardNode,
};

#[test]
fn file_reference_has_the_prefix() {
    assert_eq!(image_file("QUJD"), "base64://QUJD");
    assert_eq!(image_file(""), "base64://");
}

#[test]
fn one_node_to_a_tile_in_order() {
    let tiles = vec!["AAA=".to_string(), "BBB=".to_string(), "CCC=".to_string()];
    let nodes = build_forward_nodes(&tiles, "Splitter", "10001");
    assert_eq!(
        nodes,
        vec![
            ForwardNode { name: "Splitter".to_string(), uin: "10001".to_string(), file: "base64://AAA=".to_string() },
            ForwardNode { name: "Splitter".to_string(), uin: "10001".to_string(), file: "base64://BBB=".to_string() },
            ForwardNode { name: "Splitter".to_string(), uin: "10001".to_string(), file: "base64://CCC=".to_string() },
        ]
    );
}

#[test]
fn no_tiles_no_nodes() {
    assert_eq!(build_forward_nodes(&Vec::new(), "a", "b"), Vec::new());
}

#[test]
fn inline_files_are_the_files_of_the_nodes() {
    let tiles = vec!["one".to_string(), "two".to_string()];
    let nodes = build_forward_nodes(&tiles, "n", "u");
    assert_eq!(inline_files(&nodes), vec!["base64://one".to_string(), "base64://two".to_string()]);
    assert_eq!(inline_files(&Vec::new()), Vec::<String>::new());
}

#[test]
fn sender_identity_has_defaults() {
    assert_eq!(
        sender_identity(Some("42".to_string()), Some("Kovi".to_string())),
        ("42".to_string(), "Kovi".to_string())
    );
    assert_eq!(sender_identity(None, Some("Kovi".to_string())), ("0".to_string(), "Kovi".to_string()));
    assert_eq!(sender_identity(Some("42".to_string()), None), ("42".to_string(), "Bot".to_string()));
    assert_eq!(sender_identity(None, None), ("0".to_string(), "Bot".to_string()));
}

#[test]
fn group_comes_first() {
    let conversation = Conversation { group_id: Some(900), user_id: 17 };
    assert_eq!(choose_delivery(conversation), Delivery::GroupForward(900));
    let conversation = Conversation { group_id: Some(900), user_id: 0 };
    assert_eq!(choose_delivery(conversation), Delivery::GroupForward(900));
}

#[test]
fn private_where_the_sender_is_known() {
    let conversation = Conversation { group_id: None, user_id: 17 };
    assert_eq!(choose_delivery(conversation), Delivery::PrivateForward(17));
    let conversation = Conversation { group_id: None, user_id: -1 };
    assert_eq!(choose_delivery(conversation), Delivery::PrivateForward(-1));
}

#[test]
fn inline_where_nobody_is_known() {
    let conversation = Conversation { group_id: None, user_id: 0 };
    assert_eq!(choose_delivery(conversation), Delivery::Inline);
}

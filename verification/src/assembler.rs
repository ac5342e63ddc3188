//! The response assembler: how the tiles go back into the conversation.
//!
//! The tiles are sent as one bundle of forward nodes, one node to a tile, in
//! the order of the tiles. Each node carries the name and the identifier of
//! the sender beside its picture.

use vstd::prelude::*;
use vstd::string::StringExecFns;

verus! {

/// One element of a bundle: a picture and who sends it.
#[derive(Debug, PartialEq, Eq)]
pub struct ForwardNode {
    /// The display name of the sender.
    pub name: String,
    /// The identifier of the sender.
    pub uin: String,
    /// The picture, as the file reference that the host takes.
    pub file: String,
}

/// What stands before the text of a tile in a file reference: `base64://`.
pub open spec fn file_prefix() -> Seq<char> {
    seq!['b', 'a', 's', 'e', '6', '4', ':', '/', '/']
}

/// The file reference of a tile that is given as text.
pub open spec fn file_of(tile: Seq<char>) -> Seq<char> {
    file_prefix() + tile
}

/// The identifier that is used where the host gives none as text: `0`.
pub open spec fn default_uin() -> Seq<char> {
    seq!['0']
}

/// The display name that is used where the host gives none as text: `Bot`.
pub open spec fn default_name() -> Seq<char> {
    seq!['B', 'o', 't']
}

/// Makes the file reference of a tile.
pub fn image_file(tile: &str) -> (file: String)
    ensures
        file@ == file_of(tile@),
{
    proof {
        reveal_strlit("base64://");
    }
    String::from_str("base64://").concat(tile)
}

/// Who the tiles are sent as: the identifier and the display name that the
/// host knows the sender by, each with its default where the host gave no
/// text for it.
pub fn sender_identity(user_id: Option<String>, nickname: Option<String>) -> (r: (String, String))
    ensures
        r.0@ == (match user_id {
            Some(id) => id@,
            None => default_uin(),
        }),
        r.1@ == (match nickname {
            Some(name) => name@,
            None => default_name(),
        }),
{
    proof {
        reveal_strlit("0");
        reveal_strlit("Bot");
    }
    let uin = match user_id {
        Some(id) => id,
        None => String::from_str("0"),
    };
    let name = match nickname {
        Some(name) => name,
        None => String::from_str("Bot"),
    };
    (uin, name)
}

/// Makes the bundle: one node to a tile, in the order of the tiles, each with
/// the name and the identifier of the sender.
pub fn build_forward_nodes(tiles: &Vec<String>, name: &str, uin: &str) -> (nodes: Vec<ForwardNode>)
    ensures
        nodes@.len() == tiles@.len(),
        forall|k: int|
            0 <= k < nodes@.len() ==> {
                &&& (#[trigger] nodes@[k]).name@ == name@
                &&& nodes@[k].uin@ == uin@
                &&& nodes@[k].file@ == file_of(tiles@[k]@)
            },
{
    let mut nodes: Vec<ForwardNode> = Vec::new();
    let mut k: usize = 0;
    while k < tiles.len()
        invariant
            0 <= k <= tiles@.len(),
            nodes@.len() == k,
            forall|i: int|
                0 <= i < k ==> {
                    &&& (#[trigger] nodes@[i]).name@ == name@
                    &&& nodes@[i].uin@ == uin@
                    &&& nodes@[i].file@ == file_of(tiles@[i]@)
                },
        decreases tiles@.len() - k,
    {
        let node = ForwardNode {
            name: String::from_str(name),
            uin: String::from_str(uin),
            file: image_file(tiles[k].as_str()),
        };
        nodes.push(node);
        k = k + 1;
    }
    nodes
}

/// The pictures of a bundle on their own, in order: what is sent in one
/// plain message where a bundle cannot be.
pub fn inline_files(nodes: &Vec<ForwardNode>) -> (files: Vec<String>)
    ensures
        files@.len() == nodes@.len(),
        forall|k: int| 0 <= k < files@.len() ==> (#[trigger] files@[k])@ == nodes@[k].file@,
{
    let mut files: Vec<String> = Vec::new();
    let mut k: usize = 0;
    while k < nodes.len()
        invariant
            0 <= k <= nodes@.len(),
            files@.len() == k,
            forall|i: int| 0 <= i < k ==> (#[trigger] files@[i])@ == nodes@[i].file@,
        decreases nodes@.len() - k,
    {
        files.push(nodes[k].file.clone());
        k = k + 1;
    }
    files
}

/// Where a message came from: the group, if it was sent in one, and the
/// sender.
#[derive(Clone, Copy, Debug, PartialEq, Eq, Structural)]
pub struct Conversation {
    /// The group that the message was sent in.
    pub group_id: Option<i64>,
    /// The sender; 0 where the host does not know.
    pub user_id: i64,
}

/// How the tiles are sent.
#[derive(Clone, Copy, Debug, PartialEq, Eq, Structural)]
pub enum Delivery {
    /// As a bundle to the group with this identifier.
    GroupForward(i64),
    /// As a bundle to the user with this identifier.
    PrivateForward(i64),
    /// As one plain answer that holds every picture.
    Inline,
}

/// The way to send the tiles into a conversation: as a bundle to the group
/// where there is one, else as a bundle to the sender where the sender is
/// known, else as a plain answer.
pub open spec fn delivery_for(conversation: Conversation) -> Delivery {
    match conversation.group_id {
        Some(group_id) => Delivery::GroupForward(group_id),
        None => if conversation.user_id != 0 {
            Delivery::PrivateForward(conversation.user_id)
        } else {
            Delivery::Inline
        },
    }
}

/// Chooses the way to send the tiles into a conversation.
pub fn choose_delivery(conversation: Conversation) -> (r: Delivery)
    ensures
        r == delivery_for(conversation),
{
    match conversation.group_id {
        Some(group_id) => Delivery::GroupForward(group_id),
        None => if conversation.user_id != 0 {
            Delivery::PrivateForward(conversation.user_id)
        } else {
            Delivery::Inline
        },
    }
}

} // verus!

//! Audio devices, picked out of what the audio server announces.

use vstd::prelude::*;

use crate::text::{push_all, same_text};

verus! {

/// A device or stream that a call can be connected to.
#[derive(Debug)]
pub struct AudioDevice {
    /// The name of its node, which stays the same from one session to the
    /// next, unlike its number.
    pub id: String,
    pub description: String,
}

/// The properties of an announced node that matter here.
#[derive(Debug)]
pub struct NodeProps {
    pub media_class: Option<String>,
    pub node_name: Option<String>,
    pub node_description: Option<String>,
    pub application_name: Option<String>,
    pub media_name: Option<String>,
}

/// What a device is called for the user. The stream of an application has no
/// useful name or description of its own: it is called by the application
/// and what that plays.
pub open spec fn description_of(node: NodeProps) -> Seq<char> {
    match (node.application_name, node.media_name) {
        (Some(app), Some(media)) => app@ + seq![' ', '\u{2014}', ' '] + media@,
        (Some(app), None) => app@,
        (None, _) => match (node.node_description, node.node_name) {
            (Some(description), _) => description@,
            (None, Some(name)) => name@,
            (None, None) => Seq::empty(),
        },
    }
}

/// Whether a node is of the given class and has a name.
pub open spec fn is_device(node: NodeProps, media_class: Seq<char>) -> bool {
    &&& node.media_class matches Some(class) && class@ == media_class
    &&& node.node_name is Some
}

/// The devices of a class, as pairs of name and description, in the order in
/// which they were announced.
pub open spec fn devices_of(nodes: Seq<NodeProps>, media_class: Seq<char>) -> Seq<
    (Seq<char>, Seq<char>),
>
    decreases nodes.len(),
{
    if nodes.len() == 0 {
        Seq::empty()
    } else {
        let head = devices_of(nodes.drop_last(), media_class);
        if is_device(nodes.last(), media_class) {
            head.push((nodes.last().node_name->0@, description_of(nodes.last())))
        } else {
            head
        }
    }
}

/// Devices as pairs of name and description.
pub open spec fn device_views(devices: Seq<AudioDevice>) -> Seq<(Seq<char>, Seq<char>)> {
    devices.map_values(|d: AudioDevice| (d.id@, d.description@))
}

/// The device that a node is, if it is one of the given class.
pub fn device_from_node(node: &NodeProps, media_class: &str) -> (r: Option<AudioDevice>)
    ensures
        match r {
            Some(d) => {
                &&& is_device(*node, media_class@)
                &&& d.id@ == node.node_name->0@
                &&& d.description@ == description_of(*node)
            },
            None => !is_device(*node, media_class@),
        },
{
    match &node.media_class {
        Some(class) => {
            if !same_text(class.as_str(), media_class) {
                return None;
            }
        },
        None => {
            return None;
        },
    }
    match &node.node_name {
        Some(name) => {
            let mut description = String::new();
            match (&node.application_name, &node.media_name) {
                (Some(app), Some(media)) => {
                    push_all(&mut description, app.as_str());
                    description.push(' ');
                    description.push('\u{2014}');
                    description.push(' ');
                    push_all(&mut description, media.as_str());
                },
                (Some(app), None) => {
                    push_all(&mut description, app.as_str());
                },
                (None, _) => match &node.node_description {
                    Some(text) => {
                        push_all(&mut description, text.as_str());
                    },
                    None => {
                        push_all(&mut description, name.as_str());
                    },
                },
            }
            assert(description@ =~= description_of(*node));
            Some(AudioDevice { id: name.clone(), description })
        },
        None => None,
    }
}

/// The devices of a class among the announced nodes.
pub fn list_devices(nodes: &Vec<NodeProps>, media_class: &str) -> (r: Vec<AudioDevice>)
    ensures
        device_views(r@) == devices_of(nodes@, media_class@),
{
    let mut out: Vec<AudioDevice> = Vec::new();
    let mut i: usize = 0;
    assert(device_views(out@) =~= devices_of(nodes@.take(0), media_class@));
    while i < nodes.len()
        invariant
            i <= nodes@.len(),
            device_views(out@) == devices_of(nodes@.take(i as int), media_class@),
        decreases nodes.len() - i,
    {
        let ghost before = out@;
        assert(nodes@.take(i + 1).drop_last() =~= nodes@.take(i as int));
        match device_from_node(&nodes[i], media_class) {
            Some(d) => {
                let ghost dv = (d.id@, d.description@);
                out.push(d);
                assert(device_views(out@) =~= device_views(before).push(dv));
            },
            None => {},
        }
        i = i + 1;
    }
    assert(nodes@.take(nodes@.len() as int) =~= nodes@);
    out
}

/// Microphones and the like.
pub fn list_input_devices(nodes: &Vec<NodeProps>) -> (r: Vec<AudioDevice>)
    ensures
        device_views(r@) == devices_of(nodes@, "Audio/Source"@),
{
    list_devices(nodes, "Audio/Source")
}

/// Loudspeakers and the like.
pub fn list_output_devices(nodes: &Vec<NodeProps>) -> (r: Vec<AudioDevice>)
    ensures
        device_views(r@) == devices_of(nodes@, "Audio/Sink"@),
{
    list_devices(nodes, "Audio/Sink")
}

/// What applications listen on: where a call can be sent straight into a
/// voice chat.
pub fn list_app_capture_streams(nodes: &Vec<NodeProps>) -> (r: Vec<AudioDevice>)
    ensures
        device_views(r@) == devices_of(nodes@, "Stream/Input/Audio"@),
{
    list_devices(nodes, "Stream/Input/Audio")
}

/// What applications play: what can be mixed into a call. Never what they
/// listen on, which would feed our own audio back.
pub fn list_app_playback_streams(nodes: &Vec<NodeProps>) -> (r: Vec<AudioDevice>)
    ensures
        device_views(r@) == devices_of(nodes@, "Stream/Output/Audio"@),
{
    list_devices(nodes, "Stream/Output/Audio")
}

/// No node is listed both as something to send a call into and as something to
/// mix into a call: that would be an instant feedback loop.
pub proof fn capture_and_playback_are_disjoint(node: NodeProps)
    ensures
        !(is_device(node, "Stream/Input/Audio"@) && is_device(node, "Stream/Output/Audio"@)),
{
    reveal_strlit("Stream/Input/Audio");
    reveal_strlit("Stream/Output/Audio");
    assert("Stream/Input/Audio"@.len() != "Stream/Output/Audio"@.len());
}

} // verus!

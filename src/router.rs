//! The messages that cross from the script engine to the window loop, the
//! host calls that produce them, and the router that dispatches them.
use vstd::prelude::*;
use vstd::string::StringExecFns;
use crate::registry::{listeners, SubscriptionRegistry};

verus! {

/// What a new window shows.
#[derive(Debug, Clone, PartialEq, Eq)]
pub enum WindowContent {
    Url { url: String },
    Html { html: String },
}

/// A script's request to open a window under a logical name.
#[derive(Debug, Clone, PartialEq, Eq)]
pub struct RunWindowMessage {
    pub id: String,
    pub title: String,
    pub content: WindowContent,
}

/// A script's event for the window with logical name `id`.
#[derive(Debug, Clone, PartialEq, Eq)]
pub struct SentToWindowMessage {
    pub id: String,
    pub event: String,
    pub content: String,
}

/// A message on the outbound channel.
#[derive(Debug, Clone, PartialEq, Eq)]
pub enum AstrodonMessage {
    SentToWindowMessage(SentToWindowMessage),
    RunWindowMessage(RunWindowMessage),
    /// An event from a window for the script's listeners: name, payload.
    SentToDenoMessage(String, String),
}

/// An instruction for the window loop.
#[derive(Debug, Clone, PartialEq, Eq)]
pub enum WryEvent {
    /// Evaluate the script text in the window with that logical name.
    RunScript(String, String),
    NewWindow(RunWindowMessage),
}

/// What the router does with one message.
#[derive(Debug, Clone, PartialEq, Eq)]
pub enum RouteAction {
    /// Hand the instruction to the window loop.
    ToWindowLoop(WryEvent),
    /// Send the payload to each of these listeners.
    Deliver { subscribers: Vec<u128>, content: String },
}

/// The script that raises a `CustomEvent` named `event` in a window, its
/// detail parsed from `content` as JSON.
pub open spec fn dispatch_script_text(event: Seq<char>, content: Seq<char>) -> Seq<char> {
    "window.dispatchEvent(new CustomEvent('"@ + event + "', {detail: JSON.parse("@ + content
        + ")}));"@
}

/// Builds the script that raises the event `event` in a window.
fn dispatch_script(event: &str, content: &str) -> (r: String)
    ensures
        r@ == dispatch_script_text(event@, content@),
{
    let mut r = "window.dispatchEvent(new CustomEvent('".to_owned();
    r.append(event);
    r.append("', {detail: JSON.parse(");
    r.append(content);
    r.append(")}));");
    r
}

/// The host call `runWindow`: the request to enqueue.
pub fn run_window(args: RunWindowMessage) -> (r: AstrodonMessage)
    ensures
        r == AstrodonMessage::RunWindowMessage(args),
{
    AstrodonMessage::RunWindowMessage(args)
}

/// The host call `sendToWindow`: the message to enqueue.
pub fn send_to_window(args: SentToWindowMessage) -> (r: AstrodonMessage)
    ensures
        r == AstrodonMessage::SentToWindowMessage(args),
{
    AstrodonMessage::SentToWindowMessage(args)
}

/// A window's IPC event `SendEvent { name, content }`, forwarded to the
/// script side.
pub fn ipc_send_event(name: String, content: String) -> (r: AstrodonMessage)
    ensures
        r == AstrodonMessage::SentToDenoMessage(name, content),
{
    AstrodonMessage::SentToDenoMessage(name, content)
}

/// Dispatches one outbound message: window events become script
/// instructions, window requests go to the loop as they are, and script
/// events go to every current listener of their name.
pub fn route(msg: AstrodonMessage, registry: &SubscriptionRegistry) -> (r: RouteAction)
    requires
        registry.wf(),
    ensures
        match msg {
            AstrodonMessage::SentToWindowMessage(m) => match r {
                RouteAction::ToWindowLoop(WryEvent::RunScript(id, script)) =>
                    id@ == m.id@ && script@ == dispatch_script_text(m.event@, m.content@),
                _ => false,
            },
            AstrodonMessage::RunWindowMessage(m) => r == RouteAction::ToWindowLoop(WryEvent::NewWindow(m)),
            AstrodonMessage::SentToDenoMessage(name, content) => match r {
                RouteAction::Deliver { subscribers, content: c } =>
                    subscribers@ == listeners(registry@, name@) && c@ == content@,
                _ => false,
            },
        },
{
    match msg {
        AstrodonMessage::SentToWindowMessage(m) => {
            let script = dispatch_script(m.event.as_str(), m.content.as_str());
            RouteAction::ToWindowLoop(WryEvent::RunScript(m.id, script))
        },
        AstrodonMessage::RunWindowMessage(m) => RouteAction::ToWindowLoop(WryEvent::NewWindow(m)),
        AstrodonMessage::SentToDenoMessage(name, content) => {
            let subscribers = registry.subscribers(&name);
            RouteAction::Deliver { subscribers, content }
        },
    }
}

} // verus!

//! The values the plugin hands back to clipygo.

use vstd::prelude::*;

verus! {

/// Name under which every target of this plugin is offered.
pub const PROVIDER: &'static str = "MS Teams";

/// Placeholder Teams icon (purple 1x1 PNG, base64).
pub const TEAMS_ICON: &'static str = "iVBORw0KGgoAAAANSUhEUgAAAAEAAAABCAYAAAAfFcSJAAAAC0lEQVQI12NgAAIABQAABjE+ibYAAAAASUVORK5CYII=";

/// The only content format that can be sent.
pub const TEXT_FORMAT: &'static str = "text";

/// A place that clipboard content can be sent to.
#[derive(Debug)]
pub struct Target {
    pub id: String,
    pub provider: String,
    pub formats: Vec<String>,
    pub title: String,
    pub description: String,
    pub image: String,
}

/// A target as plain text values.
pub struct TargetView {
    pub id: Seq<char>,
    pub provider: Seq<char>,
    pub formats: Seq<Seq<char>>,
    pub title: Seq<char>,
    pub description: Seq<char>,
    pub image: Seq<char>,
}

impl View for Target {
    type V = TargetView;

    open spec fn view(&self) -> TargetView {
        TargetView {
            id: self.id@,
            provider: self.provider@,
            formats: self.formats.deep_view(),
            title: self.title@,
            description: self.description@,
            image: self.image@,
        }
    }
}

/// A target of this plugin with the given id, title and description.
pub open spec fn plugin_target(id: Seq<char>, title: Seq<char>, description: Seq<char>) -> TargetView {
    TargetView {
        id,
        provider: PROVIDER@,
        formats: seq![TEXT_FORMAT@],
        title,
        description,
        image: TEAMS_ICON@,
    }
}

/// Builds a target of this plugin: provider "MS Teams", the text format, the Teams icon.
pub fn make_target(id: String, title: String, description: String) -> (t: Target)
    ensures
        t@ == plugin_target(id@, title@, description@),
{
    let mut formats: Vec<String> = Vec::new();
    formats.push(TEXT_FORMAT.to_string());
    let t = Target {
        id,
        provider: PROVIDER.to_string(),
        formats,
        title,
        description,
        image: TEAMS_ICON.to_string(),
    };
    assert(t.formats.deep_view() =~= seq![TEXT_FORMAT@]);
    t
}

/// Answer to a request for the plugin's description.
#[derive(Debug)]
pub struct InfoResponse {
    pub name: String,
    pub version: String,
    pub description: String,
    pub author: String,
    pub link: Option<String>,
}

/// Answer to a request for the list of targets.
#[derive(Debug)]
pub struct TargetsResponse {
    pub targets: Vec<Target>,
}

/// Answer to a send or a configuration update.
#[derive(Debug)]
pub struct SendResponse {
    pub success: bool,
    pub error: Option<String>,
}

} // verus!

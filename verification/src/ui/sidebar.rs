//! Settings / info sidebar.
//!
//! Houses what need not be visible all the time: the layers' settings, the
//! radar's time range, what is known of the satellite scene, and an about text.

use crate::binary::Binary64;
use crate::data::nexrad::NexradClient;
use crate::data::sentinel::SentinelClient;
use crate::ui::map_view::SentinelLayer;
use vstd::prelude::*;
use vstd::string::*;

verus! {

/// A tab of the sidebar.
#[derive(Debug, Clone, Copy, PartialEq, Eq, Structural)]
pub enum SidebarSection {
    Layers,
    Radar,
    Satellite,
    About,
}

impl Default for SidebarSection {
    fn default() -> (r: SidebarSection)
        ensures
            r == SidebarSection::Layers,
    {
        SidebarSection::Layers
    }
}

impl SidebarSection {
    /// The tabs from left to right.
    pub fn tabs() -> (r: [SidebarSection; 4])
        ensures
            r@ == seq![
                SidebarSection::Layers,
                SidebarSection::Radar,
                SidebarSection::Satellite,
                SidebarSection::About,
            ],
    {
        [
            SidebarSection::Layers,
            SidebarSection::Radar,
            SidebarSection::Satellite,
            SidebarSection::About,
        ]
    }

    /// The label of the tab.
    pub fn title(self) -> (r: &'static str)
        ensures
            r@ == match self {
                SidebarSection::Layers => "Layers"@,
                SidebarSection::Radar => "Radar"@,
                SidebarSection::Satellite => "Satellite"@,
                SidebarSection::About => "About"@,
            },
    {
        match self {
            SidebarSection::Layers => "Layers",
            SidebarSection::Radar => "Radar",
            SidebarSection::Satellite => "Satellite",
            SidebarSection::About => "About",
        }
    }
}

/// The sidebar.
#[derive(Debug, Clone, Copy)]
pub struct Sidebar {
    /// Which section of the sidebar is currently open.
    pub open_section: SidebarSection,
}

impl Default for Sidebar {
    fn default() -> (r: Sidebar)
        ensures
            r.open_section == SidebarSection::Layers,
    {
        Sidebar { open_section: SidebarSection::Layers }
    }
}

/// The status line of the radar tab.
pub fn radar_status(client: &NexradClient) -> (r: &'static str)
    ensures
        r@ == if client.fetching {
            "Status: Fetching…"@
        } else {
            "Status: Ready"@
        },
{
    if client.is_fetching() {
        "Status: Fetching…"
    } else {
        "Status: Ready"
    }
}

/// What the satellite tab says of the scene.
pub struct SceneInfo<'a> {
    pub scene_id: &'a str,
    pub date: &'a str,
    /// The cloud cover in percent: none where no scene is known.
    pub cloud_cover: Option<Binary64>,
    pub status: &'static str,
}

/// The text, or a dash where there is none.
pub open spec fn or_dash(text: Option<String>) -> Seq<char> {
    match text {
        Some(text) => text@,
        None => "—"@,
    }
}

fn text_or_dash(text: &Option<String>) -> (r: &str)
    ensures
        r@ == or_dash(*text),
{
    match text {
        Some(text) => text.as_str(),
        None => "—",
    }
}

/// What the satellite tab says of the layer's scene and the fetch.
pub fn scene_info<'a, T>(layer: &'a SentinelLayer<T>, client: &SentinelClient) -> (r: SceneInfo<'a>)
    ensures
        r.scene_id@ == or_dash(layer.scene_id),
        r.date@ == or_dash(layer.scene_datetime),
        layer.scene_id matches Some(id) ==> r.scene_id@ == id@,
        layer.scene_id is None ==> r.scene_id@ == "—"@,
        layer.scene_datetime matches Some(date) ==> r.date@ == date@,
        layer.scene_datetime is None ==> r.date@ == "—"@,
        r.cloud_cover == layer.cloud_cover,
        r.status@ == if client.fetching {
            "Fetching…"@
        } else {
            "Idle"@
        },
{
    SceneInfo {
        scene_id: text_or_dash(&layer.scene_id),
        date: text_or_dash(&layer.scene_datetime),
        cloud_cover: layer.cloud_cover,
        status: if client.is_fetching() {
            "Fetching…"
        } else {
            "Idle"
        },
    }
}

} // verus!

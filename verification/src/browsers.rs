use vstd::prelude::*;
use vstd::string::StringExecFns;
use vstd::string::StringSliceAdditionalSpecFns;
use crate::text::{chars_of, eq_ignore_case, eq_ignore_case_str, hex_bytes, hex_spec};
use crate::tree::{DirectoryTree, children_spec, join_path, join_spec, tree_has, views};

verus! {

/// The per-user application data root that a browser keeps its profiles under.
#[derive(Clone, Copy, Debug, PartialEq, Eq, Structural)]
pub enum BrowserDataRoot {
    Local,
    Roaming,
}

/// A browser whose running process guards its cache.
#[derive(Clone, Copy, Debug, PartialEq, Eq, Structural)]
pub enum BrowserProcess {
    Edge,
    Chrome,
    Brave,
    Vivaldi,
    Chromium,
    Opera,
    Yandex,
    QqBrowser,
    Qihoo360,
    Sogou,
    Maxthon,
    CentBrowser,
    Browser2345,
    Liebao,
    CocCoc,
    Arc,
    Browser115,
    UcBrowser,
    Firefox,
    Waterfox,
    Floorp,
    LibreWolf,
    Zen,
    PaleMoon,
}

/// The lower-case executable names under which a browser runs.
pub open spec fn process_names(p: BrowserProcess) -> Seq<&'static str> {
    match p {
        BrowserProcess::Edge => seq!["msedge.exe", "msedge"],
        BrowserProcess::Chrome => seq!["chrome.exe", "chrome"],
        BrowserProcess::Brave => seq!["brave.exe", "brave"],
        BrowserProcess::Vivaldi => seq!["vivaldi.exe", "vivaldi"],
        BrowserProcess::Chromium => seq!["chromium.exe", "chromium"],
        BrowserProcess::Opera => seq!["opera.exe", "opera"],
        BrowserProcess::Yandex => seq!["browser.exe", "browser"],
        BrowserProcess::CocCoc => seq!["browser.exe", "browser"],
        BrowserProcess::QqBrowser => seq!["qqbrowser.exe", "qqbrowser"],
        BrowserProcess::Qihoo360 => seq!["360chrome.exe", "360chrome", "360se.exe", "360se"],
        BrowserProcess::Sogou => seq!["sogouexplorer.exe", "sogouexplorer"],
        BrowserProcess::Maxthon => seq!["maxthon.exe", "maxthon"],
        BrowserProcess::CentBrowser => seq!["chrome.exe", "chrome"],
        BrowserProcess::Browser2345 => seq!["2345explorer.exe", "2345explorer"],
        BrowserProcess::Liebao => seq!["liebao.exe", "liebao"],
        BrowserProcess::Arc => seq!["arc.exe", "arc"],
        BrowserProcess::Browser115 => seq!["115chrome.exe", "115chrome"],
        BrowserProcess::UcBrowser => seq!["ucbrowser.exe", "ucbrowser"],
        BrowserProcess::Firefox => seq!["firefox.exe", "firefox"],
        BrowserProcess::Waterfox => seq!["waterfox.exe", "waterfox"],
        BrowserProcess::Floorp => seq!["floorp.exe", "floorp"],
        BrowserProcess::LibreWolf => seq!["librewolf.exe", "librewolf"],
        BrowserProcess::Zen => seq!["zen.exe", "zen"],
        BrowserProcess::PaleMoon => seq!["palemoon.exe", "palemoon"],
    }
}

/// The name under which a browser is shown to the user.
pub open spec fn browser_display_name(p: BrowserProcess) -> &'static str {
    match p {
        BrowserProcess::Edge => "Microsoft Edge",
        BrowserProcess::Chrome => "Google Chrome",
        BrowserProcess::Brave => "Brave",
        BrowserProcess::Vivaldi => "Vivaldi",
        BrowserProcess::Chromium => "Chromium",
        BrowserProcess::Opera => "Opera",
        BrowserProcess::Yandex => "Yandex Browser",
        BrowserProcess::QqBrowser => "QQ 浏览器",
        BrowserProcess::Qihoo360 => "360 浏览器",
        BrowserProcess::Sogou => "搜狗高速浏览器",
        BrowserProcess::Maxthon => "傲游浏览器",
        BrowserProcess::CentBrowser => "百分浏览器",
        BrowserProcess::Browser2345 => "2345 浏览器",
        BrowserProcess::Liebao => "猎豹浏览器",
        BrowserProcess::CocCoc => "Coc Coc",
        BrowserProcess::Arc => "Arc",
        BrowserProcess::Browser115 => "115 浏览器",
        BrowserProcess::UcBrowser => "UC 浏览器",
        BrowserProcess::Firefox => "Firefox",
        BrowserProcess::Waterfox => "Waterfox",
        BrowserProcess::Floorp => "Floorp",
        BrowserProcess::LibreWolf => "LibreWolf",
        BrowserProcess::Zen => "Zen Browser",
        BrowserProcess::PaleMoon => "Pale Moon",
    }
}

impl BrowserProcess {
    /// The executable names under which this browser runs.
    pub fn names(self) -> (r: Vec<&'static str>)
        ensures
            r@ == process_names(self),
    {
        let v: Vec<&'static str> = match self {
            BrowserProcess::Edge => vec!["msedge.exe", "msedge"],
            BrowserProcess::Chrome => vec!["chrome.exe", "chrome"],
            BrowserProcess::Brave => vec!["brave.exe", "brave"],
            BrowserProcess::Vivaldi => vec!["vivaldi.exe", "vivaldi"],
            BrowserProcess::Chromium => vec!["chromium.exe", "chromium"],
            BrowserProcess::Opera => vec!["opera.exe", "opera"],
            BrowserProcess::Yandex | BrowserProcess::CocCoc => vec!["browser.exe", "browser"],
            BrowserProcess::QqBrowser => vec!["qqbrowser.exe", "qqbrowser"],
            BrowserProcess::Qihoo360 => vec!["360chrome.exe", "360chrome", "360se.exe", "360se"],
            BrowserProcess::Sogou => vec!["sogouexplorer.exe", "sogouexplorer"],
            BrowserProcess::Maxthon => vec!["maxthon.exe", "maxthon"],
            BrowserProcess::CentBrowser => vec!["chrome.exe", "chrome"],
            BrowserProcess::Browser2345 => vec!["2345explorer.exe", "2345explorer"],
            BrowserProcess::Liebao => vec!["liebao.exe", "liebao"],
            BrowserProcess::Arc => vec!["arc.exe", "arc"],
            BrowserProcess::Browser115 => vec!["115chrome.exe", "115chrome"],
            BrowserProcess::UcBrowser => vec!["ucbrowser.exe", "ucbrowser"],
            BrowserProcess::Firefox => vec!["firefox.exe", "firefox"],
            BrowserProcess::Waterfox => vec!["waterfox.exe", "waterfox"],
            BrowserProcess::Floorp => vec!["floorp.exe", "floorp"],
            BrowserProcess::LibreWolf => vec!["librewolf.exe", "librewolf"],
            BrowserProcess::Zen => vec!["zen.exe", "zen"],
            BrowserProcess::PaleMoon => vec!["palemoon.exe", "palemoon"],
        };
        assert(v@ =~= process_names(self));
        v
    }

    /// The name under which this browser is shown to the user.
    pub fn display_name(self) -> (r: &'static str)
        ensures
            r == browser_display_name(self),
    {
        match self {
            BrowserProcess::Edge => "Microsoft Edge",
            BrowserProcess::Chrome => "Google Chrome",
            BrowserProcess::Brave => "Brave",
            BrowserProcess::Vivaldi => "Vivaldi",
            BrowserProcess::Chromium => "Chromium",
            BrowserProcess::Opera => "Opera",
            BrowserProcess::Yandex => "Yandex Browser",
            BrowserProcess::QqBrowser => "QQ 浏览器",
            BrowserProcess::Qihoo360 => "360 浏览器",
            BrowserProcess::Sogou => "搜狗高速浏览器",
            BrowserProcess::Maxthon => "傲游浏览器",
            BrowserProcess::CentBrowser => "百分浏览器",
            BrowserProcess::Browser2345 => "2345 浏览器",
            BrowserProcess::Liebao => "猎豹浏览器",
            BrowserProcess::CocCoc => "Coc Coc",
            BrowserProcess::Arc => "Arc",
            BrowserProcess::Browser115 => "115 浏览器",
            BrowserProcess::UcBrowser => "UC 浏览器",
            BrowserProcess::Firefox => "Firefox",
            BrowserProcess::Waterfox => "Waterfox",
            BrowserProcess::Floorp => "Floorp",
            BrowserProcess::LibreWolf => "LibreWolf",
            BrowserProcess::Zen => "Zen Browser",
            BrowserProcess::PaleMoon => "Pale Moon",
        }
    }
}

/// A regenerable cache directory of one browser profile.
#[derive(Clone, Debug)]
pub struct BrowserCacheRule {
    pub id: String,
    pub name: String,
    pub base: BrowserDataRoot,
    pub relative: String,
    pub process: BrowserProcess,
}

/// How a browser arranges its profiles below its data directory.
#[derive(Clone, Copy, Debug, PartialEq, Eq, Structural)]
pub enum BrowserLayout {
    ChromiumProfiles,
    DirectChromiumProfile,
    GeckoProfiles,
}

/// Where one browser keeps its profiles.
#[derive(Clone, Copy, Debug)]
pub struct BrowserSpec {
    pub id: &'static str,
    pub name: &'static str,
    pub base: BrowserDataRoot,
    pub relative: &'static str,
    pub layout: BrowserLayout,
    pub process: BrowserProcess,
}

/// The browsers whose caches are discovered, in discovery order.
pub open spec fn browser_spec_table() -> Seq<BrowserSpec> {
    seq![
        BrowserSpec { id: "edge", name: "Microsoft Edge", base: BrowserDataRoot::Local, relative: "Microsoft/Edge/User Data", layout: BrowserLayout::ChromiumProfiles, process: BrowserProcess::Edge },
        BrowserSpec { id: "edge-beta", name: "Microsoft Edge Beta", base: BrowserDataRoot::Local, relative: "Microsoft/Edge Beta/User Data", layout: BrowserLayout::ChromiumProfiles, process: BrowserProcess::Edge },
        BrowserSpec { id: "edge-dev", name: "Microsoft Edge Dev", base: BrowserDataRoot::Local, relative: "Microsoft/Edge Dev/User Data", layout: BrowserLayout::ChromiumProfiles, process: BrowserProcess::Edge },
        BrowserSpec { id: "edge-canary", name: "Microsoft Edge Canary", base: BrowserDataRoot::Local, relative: "Microsoft/Edge SxS/User Data", layout: BrowserLayout::ChromiumProfiles, process: BrowserProcess::Edge },
        BrowserSpec { id: "chrome", name: "Google Chrome", base: BrowserDataRoot::Local, relative: "Google/Chrome/User Data", layout: BrowserLayout::ChromiumProfiles, process: BrowserProcess::Chrome },
        BrowserSpec { id: "chrome-beta", name: "Google Chrome Beta", base: BrowserDataRoot::Local, relative: "Google/Chrome Beta/User Data", layout: BrowserLayout::ChromiumProfiles, process: BrowserProcess::Chrome },
        BrowserSpec { id: "chrome-dev", name: "Google Chrome Dev", base: BrowserDataRoot::Local, relative: "Google/Chrome Dev/User Data", layout: BrowserLayout::ChromiumProfiles, process: BrowserProcess::Chrome },
        BrowserSpec { id: "chrome-canary", name: "Google Chrome Canary", base: BrowserDataRoot::Local, relative: "Google/Chrome SxS/User Data", layout: BrowserLayout::ChromiumProfiles, process: BrowserProcess::Chrome },
        BrowserSpec { id: "brave", name: "Brave", base: BrowserDataRoot::Local, relative: "BraveSoftware/Brave-Browser/User Data", layout: BrowserLayout::ChromiumProfiles, process: BrowserProcess::Brave },
        BrowserSpec { id: "brave-beta", name: "Brave Beta", base: BrowserDataRoot::Local, relative: "BraveSoftware/Brave-Browser-Beta/User Data", layout: BrowserLayout::ChromiumProfiles, process: BrowserProcess::Brave },
        BrowserSpec { id: "brave-nightly", name: "Brave Nightly", base: BrowserDataRoot::Local, relative: "BraveSoftware/Brave-Browser-Nightly/User Data", layout: BrowserLayout::ChromiumProfiles, process: BrowserProcess::Brave },
        BrowserSpec { id: "vivaldi", name: "Vivaldi", base: BrowserDataRoot::Local, relative: "Vivaldi/User Data", layout: BrowserLayout::ChromiumProfiles, process: BrowserProcess::Vivaldi },
        BrowserSpec { id: "chromium", name: "Chromium", base: BrowserDataRoot::Local, relative: "Chromium/User Data", layout: BrowserLayout::ChromiumProfiles, process: BrowserProcess::Chromium },
        BrowserSpec { id: "yandex", name: "Yandex Browser", base: BrowserDataRoot::Local, relative: "Yandex/YandexBrowser/User Data", layout: BrowserLayout::ChromiumProfiles, process: BrowserProcess::Yandex },
        BrowserSpec { id: "qqbrowser", name: "QQ 浏览器", base: BrowserDataRoot::Local, relative: "Tencent/QQBrowser/User Data", layout: BrowserLayout::ChromiumProfiles, process: BrowserProcess::QqBrowser },
        BrowserSpec { id: "360-extreme", name: "360 极速浏览器", base: BrowserDataRoot::Local, relative: "360Chrome/Chrome/User Data", layout: BrowserLayout::ChromiumProfiles, process: BrowserProcess::Qihoo360 },
        BrowserSpec { id: "360-safe-local", name: "360 安全浏览器", base: BrowserDataRoot::Local, relative: "360se6/User Data", layout: BrowserLayout::ChromiumProfiles, process: BrowserProcess::Qihoo360 },
        BrowserSpec { id: "360-safe-roaming", name: "360 安全浏览器", base: BrowserDataRoot::Roaming, relative: "360se6/User Data", layout: BrowserLayout::ChromiumProfiles, process: BrowserProcess::Qihoo360 },
        BrowserSpec { id: "sogou-local", name: "搜狗高速浏览器", base: BrowserDataRoot::Local, relative: "SogouExplorer/Webkit", layout: BrowserLayout::ChromiumProfiles, process: BrowserProcess::Sogou },
        BrowserSpec { id: "sogou-roaming", name: "搜狗高速浏览器", base: BrowserDataRoot::Roaming, relative: "SogouExplorer/Webkit", layout: BrowserLayout::ChromiumProfiles, process: BrowserProcess::Sogou },
        BrowserSpec { id: "maxthon", name: "傲游浏览器", base: BrowserDataRoot::Local, relative: "Maxthon/Application/User Data", layout: BrowserLayout::ChromiumProfiles, process: BrowserProcess::Maxthon },
        BrowserSpec { id: "centbrowser", name: "百分浏览器", base: BrowserDataRoot::Local, relative: "CentBrowser/User Data", layout: BrowserLayout::ChromiumProfiles, process: BrowserProcess::CentBrowser },
        BrowserSpec { id: "2345explorer", name: "2345 浏览器", base: BrowserDataRoot::Local, relative: "2345Explorer/User Data", layout: BrowserLayout::ChromiumProfiles, process: BrowserProcess::Browser2345 },
        BrowserSpec { id: "liebao", name: "猎豹浏览器", base: BrowserDataRoot::Local, relative: "liebao/User Data", layout: BrowserLayout::ChromiumProfiles, process: BrowserProcess::Liebao },
        BrowserSpec { id: "coccoc", name: "Coc Coc", base: BrowserDataRoot::Local, relative: "CocCoc/Browser/User Data", layout: BrowserLayout::ChromiumProfiles, process: BrowserProcess::CocCoc },
        BrowserSpec { id: "arc", name: "Arc", base: BrowserDataRoot::Local, relative: "Packages/TheBrowserCompany.Arc_ttt1ap7aakyb4/LocalCache/Local/Arc/User Data", layout: BrowserLayout::ChromiumProfiles, process: BrowserProcess::Arc },
        BrowserSpec { id: "115browser", name: "115 浏览器", base: BrowserDataRoot::Local, relative: "115Browser/User Data", layout: BrowserLayout::ChromiumProfiles, process: BrowserProcess::Browser115 },
        BrowserSpec { id: "ucbrowser", name: "UC 浏览器", base: BrowserDataRoot::Local, relative: "UCBrowser/User Data", layout: BrowserLayout::ChromiumProfiles, process: BrowserProcess::UcBrowser },
        BrowserSpec { id: "opera", name: "Opera", base: BrowserDataRoot::Local, relative: "Opera Software/Opera Stable", layout: BrowserLayout::DirectChromiumProfile, process: BrowserProcess::Opera },
        BrowserSpec { id: "opera-gx", name: "Opera GX", base: BrowserDataRoot::Local, relative: "Opera Software/Opera GX Stable", layout: BrowserLayout::DirectChromiumProfile, process: BrowserProcess::Opera },
        BrowserSpec { id: "opera-air", name: "Opera Air", base: BrowserDataRoot::Local, relative: "Opera Software/Opera Air Stable", layout: BrowserLayout::DirectChromiumProfile, process: BrowserProcess::Opera },
        BrowserSpec { id: "opera-developer", name: "Opera Developer", base: BrowserDataRoot::Local, relative: "Opera Software/Opera Developer", layout: BrowserLayout::DirectChromiumProfile, process: BrowserProcess::Opera },
        BrowserSpec { id: "opera-beta", name: "Opera Beta", base: BrowserDataRoot::Local, relative: "Opera Software/Opera Next", layout: BrowserLayout::DirectChromiumProfile, process: BrowserProcess::Opera },
        BrowserSpec { id: "firefox", name: "Firefox", base: BrowserDataRoot::Local, relative: "Mozilla/Firefox/Profiles", layout: BrowserLayout::GeckoProfiles, process: BrowserProcess::Firefox },
        BrowserSpec { id: "waterfox", name: "Waterfox", base: BrowserDataRoot::Local, relative: "Waterfox/Profiles", layout: BrowserLayout::GeckoProfiles, process: BrowserProcess::Waterfox },
        BrowserSpec { id: "floorp", name: "Floorp", base: BrowserDataRoot::Local, relative: "Floorp/Profiles", layout: BrowserLayout::GeckoProfiles, process: BrowserProcess::Floorp },
        BrowserSpec { id: "librewolf", name: "LibreWolf", base: BrowserDataRoot::Local, relative: "librewolf/Profiles", layout: BrowserLayout::GeckoProfiles, process: BrowserProcess::LibreWolf },
        BrowserSpec { id: "zen", name: "Zen Browser", base: BrowserDataRoot::Local, relative: "zen/Profiles", layout: BrowserLayout::GeckoProfiles, process: BrowserProcess::Zen },
        BrowserSpec { id: "palemoon", name: "Pale Moon", base: BrowserDataRoot::Local, relative: "Moonchild Productions/Pale Moon/Profiles", layout: BrowserLayout::GeckoProfiles, process: BrowserProcess::PaleMoon },
    ]
}

/// The browsers whose caches are discovered, in discovery order.
pub fn browser_specs() -> (r: Vec<BrowserSpec>)
    ensures
        r@ == browser_spec_table(),
{
    let v: Vec<BrowserSpec> = vec![
        BrowserSpec { id: "edge", name: "Microsoft Edge", base: BrowserDataRoot::Local, relative: "Microsoft/Edge/User Data", layout: BrowserLayout::ChromiumProfiles, process: BrowserProcess::Edge },
        BrowserSpec { id: "edge-beta", name: "Microsoft Edge Beta", base: BrowserDataRoot::Local, relative: "Microsoft/Edge Beta/User Data", layout: BrowserLayout::ChromiumProfiles, process: BrowserProcess::Edge },
        BrowserSpec { id: "edge-dev", name: "Microsoft Edge Dev", base: BrowserDataRoot::Local, relative: "Microsoft/Edge Dev/User Data", layout: BrowserLayout::ChromiumProfiles, process: BrowserProcess::Edge },
        BrowserSpec { id: "edge-canary", name: "Microsoft Edge Canary", base: BrowserDataRoot::Local, relative: "Microsoft/Edge SxS/User Data", layout: BrowserLayout::ChromiumProfiles, process: BrowserProcess::Edge },
        BrowserSpec { id: "chrome", name: "Google Chrome", base: BrowserDataRoot::Local, relative: "Google/Chrome/User Data", layout: BrowserLayout::ChromiumProfiles, process: BrowserProcess::Chrome },
        BrowserSpec { id: "chrome-beta", name: "Google Chrome Beta", base: BrowserDataRoot::Local, relative: "Google/Chrome Beta/User Data", layout: BrowserLayout::ChromiumProfiles, process: BrowserProcess::Chrome },
        BrowserSpec { id: "chrome-dev", name: "Google Chrome Dev", base: BrowserDataRoot::Local, relative: "Google/Chrome Dev/User Data", layout: BrowserLayout::ChromiumProfiles, process: BrowserProcess::Chrome },
        BrowserSpec { id: "chrome-canary", name: "Google Chrome Canary", base: BrowserDataRoot::Local, relative: "Google/Chrome SxS/User Data", layout: BrowserLayout::ChromiumProfiles, process: BrowserProcess::Chrome },
        BrowserSpec { id: "brave", name: "Brave", base: BrowserDataRoot::Local, relative: "BraveSoftware/Brave-Browser/User Data", layout: BrowserLayout::ChromiumProfiles, process: BrowserProcess::Brave },
        BrowserSpec { id: "brave-beta", name: "Brave Beta", base: BrowserDataRoot::Local, relative: "BraveSoftware/Brave-Browser-Beta/User Data", layout: BrowserLayout::ChromiumProfiles, process: BrowserProcess::Brave },
        BrowserSpec { id: "brave-nightly", name: "Brave Nightly", base: BrowserDataRoot::Local, relative: "BraveSoftware/Brave-Browser-Nightly/User Data", layout: BrowserLayout::ChromiumProfiles, process: BrowserProcess::Brave },
        BrowserSpec { id: "vivaldi", name: "Vivaldi", base: BrowserDataRoot::Local, relative: "Vivaldi/User Data", layout: BrowserLayout::ChromiumProfiles, process: BrowserProcess::Vivaldi },
        BrowserSpec { id: "chromium", name: "Chromium", base: BrowserDataRoot::Local, relative: "Chromium/User Data", layout: BrowserLayout::ChromiumProfiles, process: BrowserProcess::Chromium },
        BrowserSpec { id: "yandex", name: "Yandex Browser", base: BrowserDataRoot::Local, relative: "Yandex/YandexBrowser/User Data", layout: BrowserLayout::ChromiumProfiles, process: BrowserProcess::Yandex },
        BrowserSpec { id: "qqbrowser", name: "QQ 浏览器", base: BrowserDataRoot::Local, relative: "Tencent/QQBrowser/User Data", layout: BrowserLayout::ChromiumProfiles, process: BrowserProcess::QqBrowser },
        BrowserSpec { id: "360-extreme", name: "360 极速浏览器", base: BrowserDataRoot::Local, relative: "360Chrome/Chrome/User Data", layout: BrowserLayout::ChromiumProfiles, process: BrowserProcess::Qihoo360 },
        BrowserSpec { id: "360-safe-local", name: "360 安全浏览器", base: BrowserDataRoot::Local, relative: "360se6/User Data", layout: BrowserLayout::ChromiumProfiles, process: BrowserProcess::Qihoo360 },
        BrowserSpec { id: "360-safe-roaming", name: "360 安全浏览器", base: BrowserDataRoot::Roaming, relative: "360se6/User Data", layout: BrowserLayout::ChromiumProfiles, process: BrowserProcess::Qihoo360 },
        BrowserSpec { id: "sogou-local", name: "搜狗高速浏览器", base: BrowserDataRoot::Local, relative: "SogouExplorer/Webkit", layout: BrowserLayout::ChromiumProfiles, process: BrowserProcess::Sogou },
        BrowserSpec { id: "sogou-roaming", name: "搜狗高速浏览器", base: BrowserDataRoot::Roaming, relative: "SogouExplorer/Webkit", layout: BrowserLayout::ChromiumProfiles, process: BrowserProcess::Sogou },
        BrowserSpec { id: "maxthon", name: "傲游浏览器", base: BrowserDataRoot::Local, relative: "Maxthon/Application/User Data", layout: BrowserLayout::ChromiumProfiles, process: BrowserProcess::Maxthon },
        BrowserSpec { id: "centbrowser", name: "百分浏览器", base: BrowserDataRoot::Local, relative: "CentBrowser/User Data", layout: BrowserLayout::ChromiumProfiles, process: BrowserProcess::CentBrowser },
        BrowserSpec { id: "2345explorer", name: "2345 浏览器", base: BrowserDataRoot::Local, relative: "2345Explorer/User Data", layout: BrowserLayout::ChromiumProfiles, process: BrowserProcess::Browser2345 },
        BrowserSpec { id: "liebao", name: "猎豹浏览器", base: BrowserDataRoot::Local, relative: "liebao/User Data", layout: BrowserLayout::ChromiumProfiles, process: BrowserProcess::Liebao },
        BrowserSpec { id: "coccoc", name: "Coc Coc", base: BrowserDataRoot::Local, relative: "CocCoc/Browser/User Data", layout: BrowserLayout::ChromiumProfiles, process: BrowserProcess::CocCoc },
        BrowserSpec { id: "arc", name: "Arc", base: BrowserDataRoot::Local, relative: "Packages/TheBrowserCompany.Arc_ttt1ap7aakyb4/LocalCache/Local/Arc/User Data", layout: BrowserLayout::ChromiumProfiles, process: BrowserProcess::Arc },
        BrowserSpec { id: "115browser", name: "115 浏览器", base: BrowserDataRoot::Local, relative: "115Browser/User Data", layout: BrowserLayout::ChromiumProfiles, process: BrowserProcess::Browser115 },
        BrowserSpec { id: "ucbrowser", name: "UC 浏览器", base: BrowserDataRoot::Local, relative: "UCBrowser/User Data", layout: BrowserLayout::ChromiumProfiles, process: BrowserProcess::UcBrowser },
        BrowserSpec { id: "opera", name: "Opera", base: BrowserDataRoot::Local, relative: "Opera Software/Opera Stable", layout: BrowserLayout::DirectChromiumProfile, process: BrowserProcess::Opera },
        BrowserSpec { id: "opera-gx", name: "Opera GX", base: BrowserDataRoot::Local, relative: "Opera Software/Opera GX Stable", layout: BrowserLayout::DirectChromiumProfile, process: BrowserProcess::Opera },
        BrowserSpec { id: "opera-air", name: "Opera Air", base: BrowserDataRoot::Local, relative: "Opera Software/Opera Air Stable", layout: BrowserLayout::DirectChromiumProfile, process: BrowserProcess::Opera },
        BrowserSpec { id: "opera-developer", name: "Opera Developer", base: BrowserDataRoot::Local, relative: "Opera Software/Opera Developer", layout: BrowserLayout::DirectChromiumProfile, process: BrowserProcess::Opera },
        BrowserSpec { id: "opera-beta", name: "Opera Beta", base: BrowserDataRoot::Local, relative: "Opera Software/Opera Next", layout: BrowserLayout::DirectChromiumProfile, process: BrowserProcess::Opera },
        BrowserSpec { id: "firefox", name: "Firefox", base: BrowserDataRoot::Local, relative: "Mozilla/Firefox/Profiles", layout: BrowserLayout::GeckoProfiles, process: BrowserProcess::Firefox },
        BrowserSpec { id: "waterfox", name: "Waterfox", base: BrowserDataRoot::Local, relative: "Waterfox/Profiles", layout: BrowserLayout::GeckoProfiles, process: BrowserProcess::Waterfox },
        BrowserSpec { id: "floorp", name: "Floorp", base: BrowserDataRoot::Local, relative: "Floorp/Profiles", layout: BrowserLayout::GeckoProfiles, process: BrowserProcess::Floorp },
        BrowserSpec { id: "librewolf", name: "LibreWolf", base: BrowserDataRoot::Local, relative: "librewolf/Profiles", layout: BrowserLayout::GeckoProfiles, process: BrowserProcess::LibreWolf },
        BrowserSpec { id: "zen", name: "Zen Browser", base: BrowserDataRoot::Local, relative: "zen/Profiles", layout: BrowserLayout::GeckoProfiles, process: BrowserProcess::Zen },
        BrowserSpec { id: "palemoon", name: "Pale Moon", base: BrowserDataRoot::Local, relative: "Moonchild Productions/Pale Moon/Profiles", layout: BrowserLayout::GeckoProfiles, process: BrowserProcess::PaleMoon },
    ];
    assert(v@ =~= browser_spec_table());
    v
}

/// The cache directories of a Chromium profile, with the id suffix of each.
pub open spec fn chromium_cache_directories() -> Seq<(&'static str, &'static str)> {
    seq![("Cache", "cache"), ("Code Cache", "code-cache"), ("GPUCache", "gpu-cache")]
}

/// A profile id: the profile name's UTF-8 bytes in lower-case hexadecimal.
pub fn stable_id_component(value: &str) -> (r: String)
    ensures
        r@ == hex_spec(value.spec_bytes()),
{
    hex_bytes(value.as_bytes())
}

/// Whether a directory name is a Chromium profile: `Default`, or `Profile `
/// followed by at least one character, ignoring ASCII case.
pub open spec fn is_chromium_profile(name: Seq<char>) -> bool {
    eq_ignore_case(name, "Default"@) || (name.len() > 8 && eq_ignore_case(name.take(8), "Profile "@))
}

pub fn chromium_profile_name(name: &str) -> (r: bool)
    ensures
        r == is_chromium_profile(name@),
{
    let chars = chars_of(name);
    if eq_ignore_case_str(&chars, "Default") {
        return true;
    }
    if chars.len() <= 8 {
        return false;
    }
    let head = crate::tree::slice_chars(&chars, 0, 8);
    assert(head@ == name@.take(8));
    eq_ignore_case_str(&head, "Profile ")
}

/// A rule's content as plain values.
pub open spec fn rule_view(r: BrowserCacheRule) -> (Seq<char>, Seq<char>, BrowserDataRoot, Seq<char>, BrowserProcess) {
    (r.id@, r.name@, r.base, r.relative@, r.process)
}

pub open spec fn rule_views(rules: Seq<BrowserCacheRule>) -> Seq<(Seq<char>, Seq<char>, BrowserDataRoot, Seq<char>, BrowserProcess)> {
    rules.map_values(|r: BrowserCacheRule| rule_view(r))
}

/// The rule for one cache directory of a Chromium profile, when that directory exists.
pub open spec fn chromium_cache_rule(spec: BrowserSpec, tree: DirectoryTree, profile_relative: Seq<char>, profile_name: Seq<char>, k: int) -> Seq<(Seq<char>, Seq<char>, BrowserDataRoot, Seq<char>, BrowserProcess)> {
    let (directory, cache_id) = chromium_cache_directories()[k];
    let relative = join_spec(profile_relative, directory@);
    if tree_has(tree, relative) {
        seq![(
            "browser-"@ + spec.id@ + "-profile-"@ + hex_spec(profile_name_bytes(profile_name)) + "-"@ + cache_id@,
            spec.name@ + " · "@ + profile_name + " · "@ + directory@,
            spec.base,
            relative,
            spec.process,
        )]
    } else {
        seq![]
    }
}

/// The UTF-8 encoding of a text.
pub open spec fn profile_name_bytes(name: Seq<char>) -> Seq<u8> {
    vstd::utf8::encode_utf8(name)
}

pub type RuleView = (Seq<char>, Seq<char>, BrowserDataRoot, Seq<char>, BrowserProcess);

/// The rules for the first `k` cache directories of a Chromium profile.
pub open spec fn chromium_rules_upto(spec: BrowserSpec, tree: DirectoryTree, profile_relative: Seq<char>, profile_name: Seq<char>, k: int) -> Seq<RuleView>
    decreases k,
{
    if k <= 0 {
        seq![]
    } else {
        chromium_rules_upto(spec, tree, profile_relative, profile_name, k - 1)
            + chromium_cache_rule(spec, tree, profile_relative, profile_name, k - 1)
    }
}

/// The rules for the existing cache directories of one Chromium profile.
pub open spec fn chromium_profile_rules(spec: BrowserSpec, tree: DirectoryTree, profile_relative: Seq<char>, profile_name: Seq<char>) -> Seq<RuleView> {
    chromium_rules_upto(spec, tree, profile_relative, profile_name, 3)
}

/// The rules for the Chromium profiles among `profiles`, in order.
pub open spec fn chromium_profiles_rules(spec: BrowserSpec, tree: DirectoryTree, data_relative: Seq<char>, profiles: Seq<Seq<char>>) -> Seq<RuleView>
    decreases profiles.len(),
{
    if profiles.len() == 0 {
        seq![]
    } else {
        let rest = chromium_profiles_rules(spec, tree, data_relative, profiles.drop_last());
        let profile = profiles.last();
        if is_chromium_profile(profile) {
            rest + chromium_profile_rules(spec, tree, join_spec(data_relative, profile), profile)
        } else {
            rest
        }
    }
}

/// The rule for a Gecko profile's `cache2` directory, when it exists.
pub open spec fn gecko_rule(spec: BrowserSpec, tree: DirectoryTree, data_relative: Seq<char>, profile: Seq<char>) -> Seq<RuleView> {
    let relative = join_spec(join_spec(data_relative, profile), "cache2"@);
    if tree_has(tree, relative) {
        seq![(
            "browser-"@ + spec.id@ + "-profile-"@ + hex_spec(profile_name_bytes(profile)) + "-cache2"@,
            spec.name@ + " · "@ + profile + " · cache2"@,
            spec.base,
            relative,
            spec.process,
        )]
    } else {
        seq![]
    }
}

/// The rules for the Gecko profiles among `profiles`, in order.
pub open spec fn gecko_rules(spec: BrowserSpec, tree: DirectoryTree, data_relative: Seq<char>, profiles: Seq<Seq<char>>) -> Seq<RuleView>
    decreases profiles.len(),
{
    if profiles.len() == 0 {
        seq![]
    } else {
        gecko_rules(spec, tree, data_relative, profiles.drop_last())
            + gecko_rule(spec, tree, data_relative, profiles.last())
    }
}

/// The rules of one browser below its data root.
pub open spec fn spec_rules(spec: BrowserSpec, tree: DirectoryTree) -> Seq<RuleView> {
    let data_relative = spec.relative@;
    if !tree_has(tree, data_relative) {
        seq![]
    } else {
        match spec.layout {
            BrowserLayout::ChromiumProfiles => chromium_profiles_rules(
                spec,
                tree,
                data_relative,
                children_spec(tree.directories@, data_relative),
            ),
            BrowserLayout::DirectChromiumProfile => chromium_profile_rules(
                spec,
                tree,
                data_relative,
                "默认配置"@,
            ),
            BrowserLayout::GeckoProfiles => gecko_rules(
                spec,
                tree,
                data_relative,
                children_spec(tree.directories@, data_relative),
            ),
        }
    }
}

/// The rules of the browsers in `specs`, each below the root it uses.
pub open spec fn discovered_rules(specs: Seq<BrowserSpec>, local: Option<DirectoryTree>, roaming: Option<DirectoryTree>) -> Seq<RuleView>
    decreases specs.len(),
{
    if specs.len() == 0 {
        seq![]
    } else {
        let rest = discovered_rules(specs.drop_last(), local, roaming);
        let spec = specs.last();
        let tree = match spec.base {
            BrowserDataRoot::Local => local,
            BrowserDataRoot::Roaming => roaming,
        };
        match tree {
            Some(t) => rest + spec_rules(spec, t),
            None => rest,
        }
    }
}

pub open spec fn deref_tree(t: Option<&DirectoryTree>) -> Option<DirectoryTree> {
    match t {
        Some(tree) => Some(*tree),
        None => None,
    }
}

proof fn lemma_rule_views_push(rules: Seq<BrowserCacheRule>, rule: BrowserCacheRule)
    ensures
        rule_views(rules.push(rule)) == rule_views(rules).push(rule_view(rule)),
{
    assert(rule_views(rules.push(rule)) =~= rule_views(rules).push(rule_view(rule)));
}

fn make_cache_rule(spec: BrowserSpec, relative: String, profile_name: &str, label: &str, suffix: &str) -> (rule: BrowserCacheRule)
    ensures
        rule_view(rule) == (
            "browser-"@ + spec.id@ + "-profile-"@ + hex_spec(profile_name_bytes(profile_name@)) + "-"@ + suffix@,
            spec.name@ + " · "@ + profile_name@ + " · "@ + label@,
            spec.base,
            relative@,
            spec.process,
        ),
{
    let hex = stable_id_component(profile_name);
    let mut id = "browser-".to_string();
    id.append(spec.id);
    id.append("-profile-");
    id.append(hex.as_str());
    id.append("-");
    id.append(suffix);
    let mut name = spec.name.to_string();
    name.append(" · ");
    name.append(profile_name);
    name.append(" · ");
    name.append(label);
    BrowserCacheRule { id, name, base: spec.base, relative, process: spec.process }
}

fn add_chromium_cache_rule(
    rules: &mut Vec<BrowserCacheRule>,
    spec: BrowserSpec,
    tree: &DirectoryTree,
    profile_relative: &str,
    profile_name: &str,
    k: usize,
)
    requires
        k < 3,
    ensures
        rule_views(final(rules)@) == rule_views(old(rules)@) + chromium_cache_rule(spec, *tree, profile_relative@, profile_name@, k as int),
{
    let (directory, cache_id) = if k == 0 {
        ("Cache", "cache")
    } else if k == 1 {
        ("Code Cache", "code-cache")
    } else {
        ("GPUCache", "gpu-cache")
    };
    assert((directory, cache_id) == chromium_cache_directories()[k as int]);
    let relative = join_path(profile_relative, directory);
    if !tree.has_directory(relative.as_str()) {
        assert(rule_views(old(rules)@) + seq![] =~= rule_views(old(rules)@));
        return;
    }
    let rule = make_cache_rule(spec, relative, profile_name, directory, cache_id);
    proof {
        lemma_rule_views_push(rules@, rule);
    }
    rules.push(rule);
    assert(rule_views(old(rules)@).push(rule_view(rule)) =~= rule_views(old(rules)@) + seq![rule_view(rule)]);
}

fn add_chromium_cache_rules(
    rules: &mut Vec<BrowserCacheRule>,
    spec: BrowserSpec,
    tree: &DirectoryTree,
    profile_relative: &str,
    profile_name: &str,
)
    ensures
        rule_views(final(rules)@) == rule_views(old(rules)@) + chromium_profile_rules(spec, *tree, profile_relative@, profile_name@),
{
    let ghost start = rule_views(rules@);
    add_chromium_cache_rule(rules, spec, tree, profile_relative, profile_name, 0);
    add_chromium_cache_rule(rules, spec, tree, profile_relative, profile_name, 1);
    add_chromium_cache_rule(rules, spec, tree, profile_relative, profile_name, 2);
    proof {
        let c = |k: int| chromium_cache_rule(spec, *tree, profile_relative@, profile_name@, k);
        reveal_with_fuel(chromium_rules_upto, 4);
        assert(chromium_rules_upto(spec, *tree, profile_relative@, profile_name@, 0) == Seq::<RuleView>::empty());
        assert(Seq::<RuleView>::empty() + c(0) =~= c(0));
        assert(chromium_rules_upto(spec, *tree, profile_relative@, profile_name@, 3) =~= c(0) + c(1) + c(2));
        assert(start + c(0) + c(1) + c(2) =~= start + (c(0) + c(1) + c(2)));
    }
}

fn add_gecko_rule(rules: &mut Vec<BrowserCacheRule>, spec: BrowserSpec, tree: &DirectoryTree, data_relative: &str, profile: &str)
    ensures
        rule_views(final(rules)@) == rule_views(old(rules)@) + gecko_rule(spec, *tree, data_relative@, profile@),
{
    let profile_relative = join_path(data_relative, profile);
    let relative = join_path(profile_relative.as_str(), "cache2");
    if !tree.has_directory(relative.as_str()) {
        assert(rule_views(old(rules)@) + seq![] =~= rule_views(old(rules)@));
        return;
    }
    let hex = stable_id_component(profile);
    let mut id = "browser-".to_string();
    id.append(spec.id);
    id.append("-profile-");
    id.append(hex.as_str());
    id.append("-cache2");
    let mut name = spec.name.to_string();
    name.append(" · ");
    name.append(profile);
    name.append(" · cache2");
    let rule = BrowserCacheRule { id, name, base: spec.base, relative, process: spec.process };
    proof {
        lemma_rule_views_push(rules@, rule);
    }
    rules.push(rule);
    assert(rule_views(old(rules)@).push(rule_view(rule)) =~= rule_views(old(rules)@) + seq![rule_view(rule)]);
}

fn discover_for_spec(rules: &mut Vec<BrowserCacheRule>, spec: BrowserSpec, tree: &DirectoryTree)
    ensures
        rule_views(final(rules)@) == rule_views(old(rules)@) + spec_rules(spec, *tree),
{
    if !tree.has_directory(spec.relative) {
        assert(rule_views(old(rules)@) + seq![] =~= rule_views(old(rules)@));
        return;
    }
    match spec.layout {
        BrowserLayout::ChromiumProfiles => {
            let profiles = tree.children(spec.relative);
            let ghost start = rule_views(rules@);
            let mut i: usize = 0;
            while i < profiles.len()
                invariant
                    0 <= i <= profiles@.len(),
                    views(profiles@) == children_spec(tree.directories@, spec.relative@),
                    rule_views(rules@) == start + chromium_profiles_rules(spec, *tree, spec.relative@, views(profiles@).take(i as int)),
                decreases profiles@.len() - i,
            {
                let profile = &profiles[i];
                assert(views(profiles@).take(i + 1).drop_last() =~= views(profiles@).take(i as int));
                assert(views(profiles@).take(i + 1).last() == profile@);
                if chromium_profile_name(profile.as_str()) {
                    let profile_relative = join_path(spec.relative, profile.as_str());
                    add_chromium_cache_rules(rules, spec, tree, profile_relative.as_str(), profile.as_str());
                    assert(start + chromium_profiles_rules(spec, *tree, spec.relative@, views(profiles@).take(i as int))
                        + chromium_profile_rules(spec, *tree, profile_relative@, profile@)
                        =~= start + (chromium_profiles_rules(spec, *tree, spec.relative@, views(profiles@).take(i as int))
                        + chromium_profile_rules(spec, *tree, profile_relative@, profile@)));
                }
                i = i + 1;
            }
            assert(views(profiles@).take(profiles@.len() as int) =~= views(profiles@));
        },
        BrowserLayout::DirectChromiumProfile => {
            add_chromium_cache_rules(rules, spec, tree, spec.relative, "默认配置");
        },
        BrowserLayout::GeckoProfiles => {
            let profiles = tree.children(spec.relative);
            let ghost start = rule_views(rules@);
            let mut i: usize = 0;
            while i < profiles.len()
                invariant
                    0 <= i <= profiles@.len(),
                    views(profiles@) == children_spec(tree.directories@, spec.relative@),
                    rule_views(rules@) == start + gecko_rules(spec, *tree, spec.relative@, views(profiles@).take(i as int)),
                decreases profiles@.len() - i,
            {
                let profile = &profiles[i];
                assert(views(profiles@).take(i + 1).drop_last() =~= views(profiles@).take(i as int));
                assert(views(profiles@).take(i + 1).last() == profile@);
                add_gecko_rule(rules, spec, tree, spec.relative, profile.as_str());
                assert(start + gecko_rules(spec, *tree, spec.relative@, views(profiles@).take(i as int))
                    + gecko_rule(spec, *tree, spec.relative@, profile@)
                    =~= start + (gecko_rules(spec, *tree, spec.relative@, views(profiles@).take(i as int))
                    + gecko_rule(spec, *tree, spec.relative@, profile@)));
                i = i + 1;
            }
            assert(views(profiles@).take(profiles@.len() as int) =~= views(profiles@));
        },
    }
}

/// The cache rules of every known browser whose data root is available,
/// discovered from the trusted directories below each root.
pub fn discover_cache_rules(local_root: Option<&DirectoryTree>, roaming_root: Option<&DirectoryTree>) -> (r: Vec<BrowserCacheRule>)
    ensures
        rule_views(r@) == discovered_rules(browser_spec_table(), deref_tree(local_root), deref_tree(roaming_root)),
{
    let specs = browser_specs();
    let mut rules: Vec<BrowserCacheRule> = Vec::new();
    let mut i: usize = 0;
    assert(rule_views(rules@) =~= Seq::<RuleView>::empty());
    while i < specs.len()
        invariant
            0 <= i <= specs@.len(),
            specs@ == browser_spec_table(),
            rule_views(rules@) == discovered_rules(specs@.take(i as int), deref_tree(local_root), deref_tree(roaming_root)),
        decreases specs@.len() - i,
    {
        let spec = specs[i];
        assert(specs@.take(i + 1).drop_last() =~= specs@.take(i as int));
        assert(specs@.take(i + 1).last() == spec);
        let tree = match spec.base {
            BrowserDataRoot::Local => local_root,
            BrowserDataRoot::Roaming => roaming_root,
        };
        match tree {
            Some(t) => {
                discover_for_spec(&mut rules, spec, t);
            },
            None => {},
        }
        i = i + 1;
    }
    assert(specs@.take(specs@.len() as int) =~= specs@);
    rules
}

} // verus!

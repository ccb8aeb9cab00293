//! The launcher manifest, by which the menus of the terminal learn of the app.

use crate::json::{Json, JsonView};
use crate::paths;
use vstd::prelude::*;

verus! {

/// The manifest of an installed binary.
pub open spec fn manifest_of(binary: Seq<char>) -> JsonView {
    JsonView::object().with("name"@, JsonView::Text("yedit"@)).with(
        "label"@,
        JsonView::Text("Yedit"@),
    ).with("icon"@, JsonView::Text(""@)).with("binary"@, JsonView::Text(binary)).with(
        "verbs"@,
        JsonView::array().and(
            JsonView::object().with("id"@, JsonView::Text("new"@)).with(
                "label"@,
                JsonView::Text("New Yedit"@),
            ).with("args"@, JsonView::array()),
        ),
    )
}

/// The manifest of an installed binary: its name, its label and the one verb that
/// starts it without a file.
pub fn manifest_value(binary: &str) -> (r: Json)
    ensures
        r@ == manifest_of(binary@),
{
    let verb = Json::object().with("id", Json::text("new")).with(
        "label",
        Json::text("New Yedit"),
    ).with("args", Json::array());
    Json::object().with("name", Json::text("yedit")).with("label", Json::text("Yedit")).with(
        "icon",
        Json::text(""),
    ).with("binary", Json::text(binary)).with("verbs", Json::array().and(verb))
}

/// The directory of the manifests.
pub open spec fn apps_dir_of(home: Seq<char>) -> Seq<char> {
    paths::joined(paths::joined(home, ".yggterm"@), "apps"@)
}

/// The directory of the manifests.
pub fn apps_dir(home: &str) -> (r: String)
    ensures
        r@ == apps_dir_of(home@),
{
    paths::join(paths::join(home, ".yggterm").as_str(), "apps")
}

/// The file of the manifest in the directory of the manifests.
pub fn manifest_path(apps_dir: &str) -> (r: String)
    ensures
        r@ == paths::joined(apps_dir@, "yedit.json"@),
{
    paths::join(apps_dir, "yedit.json")
}

} // verus!

use crate::infrastructure::runtime::{Label, LabelView};
use crate::models::text::same_text;
use vstd::prelude::*;

verus! {

/// The label that names the app a container belongs to.
pub const APP_NAME_LABEL: &'static str = "preview.servant.app-name";

/// The label that names the service a container runs.
pub const SERVICE_NAME_LABEL: &'static str = "preview.servant.service-name";

/// The label that names the role of a container within its app.
pub const CONTAINER_TYPE_LABEL: &'static str = "preview.servant.container-type";

/// The label that tells the reverse proxy how to route to a container.
pub const ROUTING_LABEL: &'static str = "traefik.frontend.rule";

/// The value of the first label with the given name.
pub open spec fn label_value(labels: Seq<LabelView>, name: Seq<char>) -> Option<Seq<char>>
    decreases labels.len(),
{
    if labels.len() == 0 {
        None
    } else if labels[0].0 == name {
        Some(labels[0].1)
    } else {
        label_value(labels.drop_first(), name)
    }
}

/// Looks a label up by its name.
pub fn get_label<'a>(labels: &'a Vec<Label>, name: &str) -> (value: Option<&'a String>)
    ensures
        value.deep_view() == label_value(labels.deep_view(), name@),
{
    let ghost all = labels.deep_view();
    let mut i: usize = 0;
    assert(all.skip(0) =~= all);
    while i < labels.len()
        invariant
            i <= labels.len(),
            all == labels.deep_view(),
            label_value(all, name@) == label_value(all.skip(i as int), name@),
        decreases labels.len() - i,
    {
        let ghost rest = all.skip(i as int);
        assert(rest[0] == labels[i as int].deep_view());
        if same_text(&labels[i].0, name) {
            return Some(&labels[i].1);
        }
        assert(rest.drop_first() =~= all.skip(i + 1));
        i += 1;
    }
    None
}

} // verus!

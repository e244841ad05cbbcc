//! What the route list remembers between runs: the expanded groups and the
//! selected route or group, stored in a normalized form.

use vstd::prelude::*;
use crate::collection::{
    insert_sorted_unique, method_label, normalized_group, strictly_sorted, strings_view, Route,
};
use crate::text::{ascii_uppercase, is_ascii_text, str_is_blank, to_uppercase_string, trim, trim_string, unicode_uppercase};

verus! {

/// A selected route, identified by its group, name, method and URL.
#[derive(Debug, Clone, PartialEq, Eq)]
pub struct RouteSelection {
    /// Group of the route.
    pub group: String,
    /// Name of the route.
    pub name: String,
    /// Method label, uppercase.
    pub method: String,
    /// URL template.
    pub url: String,
}

/// The group a selection records for a route: its group, or the default
/// group when that is blank.
pub open spec fn selection_group(g: Seq<char>) -> Seq<char> {
    if trim(g).len() == 0 {
        normalized_group(g)
    } else {
        g
    }
}

impl RouteSelection {
    /// The selection that identifies a route.
    pub fn from_route(route: &Route) -> (r: RouteSelection)
        ensures
            r.group@ == selection_group(route.group@),
            r.name@ == route.name@,
            r.method@ == method_label(route.method),
            r.url@ == route.url@,
    {
        let group = if str_is_blank(route.group.as_str()) {
            crate::collection::default_route_group()
        } else {
            route.group.clone()
        };
        RouteSelection {
            group,
            name: route.name.clone(),
            method: route.method.label(),
            url: route.url.clone(),
        }
    }
}

/// The item selected in the route list.
#[derive(Debug, Clone, PartialEq, Eq)]
pub enum SelectedItem {
    /// A route.
    Route(RouteSelection),
    /// A group header.
    Group {
        /// The group's name.
        name: String,
    },
}

/// The remembered state of the route list.
#[derive(Debug, Clone, PartialEq, Eq, Default)]
pub struct RouteListState {
    /// Names of the expanded groups.
    pub expanded_groups: Vec<String>,
    /// The selected item, if any.
    pub selected: Option<SelectedItem>,
}

/// The trimmed, non-blank names of a list.
pub open spec fn trimmed_names(v: Seq<Seq<char>>) -> Set<Seq<char>> {
    Set::new(|g: Seq<char>| g.len() > 0 && exists|i: int| 0 <= i < v.len() && trim(#[trigger] v[i]) == g)
}

/// A selection as stored: every field trimmed, the method uppercased.
pub open spec fn normalized_selection_ok(before: SelectedItem, after: SelectedItem) -> bool {
    match (before, after) {
        (SelectedItem::Route(b), SelectedItem::Route(a)) => a.group@ == trim(b.group@) && a.name@
            == trim(b.name@) && a.method@ == unicode_uppercase(trim(b.method@)) && (is_ascii_text(
            trim(b.method@),
        ) ==> a.method@ == ascii_uppercase(trim(b.method@))) && a.url@ == trim(
            b.url@,
        ),
        (SelectedItem::Group { name: b }, SelectedItem::Group { name: a }) => a@ == trim(b@),
        _ => false,
    }
}

impl RouteListState {
    /// The state as it is stored: group names trimmed, blank ones dropped,
    /// sorted without repeats; the selection's fields trimmed and its
    /// method uppercased.
    pub fn normalized(&self) -> (r: RouteListState)
        ensures
            strictly_sorted(strings_view(r.expanded_groups@)),
            strings_view(r.expanded_groups@).to_set() == trimmed_names(
                strings_view(self.expanded_groups@),
            ),
            match self.selected {
                None => r.selected is None,
                Some(b) => r.selected matches Some(a) && normalized_selection_ok(b, a),
            },
    {
        let mut groups: Vec<String> = Vec::new();
        let ghost src = strings_view(self.expanded_groups@);
        let mut i: usize = 0;
        while i < self.expanded_groups.len()
            invariant
                i <= self.expanded_groups.len(),
                src == strings_view(self.expanded_groups@),
                strictly_sorted(strings_view(groups@)),
                strings_view(groups@).to_set() == trimmed_names(src.take(i as int)),
            decreases self.expanded_groups.len() - i,
        {
            let t = trim_string(self.expanded_groups[i].as_str());
            let ghost before = trimmed_names(src.take(i as int));
            let ghost after = trimmed_names(src.take(i + 1));
            proof {
                assert(src.take(i + 1)[i as int] == self.expanded_groups@[i as int]@);
                assert forall|k: int| 0 <= k < i implies src.take(i + 1)[k] == #[trigger] src.take(
                    i as int,
                )[k] by {}
            }
            if t.as_str().unicode_len() > 0 {
                insert_sorted_unique(&mut groups, t);
                proof {
                    assert(after =~= before.insert(t@)) by {
                        assert forall|g: Seq<char>| after.contains(g) implies before.insert(
                            t@,
                        ).contains(g) by {
                            let k = choose|k: int|
                                0 <= k < i + 1 && trim(#[trigger] src.take(i + 1)[k]) == g;
                            if k < i {
                                assert(src.take(i as int)[k] == src.take(i + 1)[k]);
                            }
                        }
                        assert forall|g: Seq<char>| before.insert(t@).contains(g) implies after.contains(
                            g,
                        ) by {
                            if g == t@ {
                                assert(trim(src.take(i + 1)[i as int]) == g);
                            } else {
                                let k = choose|k: int|
                                    0 <= k < i && trim(#[trigger] src.take(i as int)[k]) == g;
                                assert(src.take(i as int)[k] == src.take(i + 1)[k]);
                            }
                        }
                    }
                }
            } else {
                proof {
                    assert(after =~= before) by {
                        assert forall|g: Seq<char>| after.contains(g) implies before.contains(g) by {
                            let k = choose|k: int|
                                0 <= k < i + 1 && trim(#[trigger] src.take(i + 1)[k]) == g;
                            if k < i {
                                assert(src.take(i as int)[k] == src.take(i + 1)[k]);
                            }
                        }
                        assert forall|g: Seq<char>| before.contains(g) implies after.contains(g) by {
                            let k = choose|k: int|
                                0 <= k < i && trim(#[trigger] src.take(i as int)[k]) == g;
                            assert(src.take(i as int)[k] == src.take(i + 1)[k]);
                        }
                    }
                }
            }
            i += 1;
        }
        proof {
            assert(src.take(self.expanded_groups.len() as int) =~= src);
        }
        let selected = match &self.selected {
            None => None,
            Some(SelectedItem::Route(route)) => {
                let method = trim_string(route.method.as_str());
                Some(
                    SelectedItem::Route(
                        RouteSelection {
                            group: trim_string(route.group.as_str()),
                            name: trim_string(route.name.as_str()),
                            method: to_uppercase_string(method.as_str()),
                            url: trim_string(route.url.as_str()),
                        },
                    ),
                )
            },
            Some(SelectedItem::Group { name }) => Some(
                SelectedItem::Group { name: trim_string(name.as_str()) },
            ),
        };
        RouteListState { expanded_groups: groups, selected }
    }
}

impl RouteListState {
    /// Selects route `index` of `routes`, first adding its group to the
    /// expanded ones when `expand_group` asks for it and it is not there;
    /// nothing changes when there is no such route.
    pub fn select_route(&mut self, routes: &Vec<Route>, index: usize, expand_group: bool)
        ensures
            index >= routes@.len() ==> *final(self) == *old(self),
            index < routes@.len() ==> ({
                let r = routes@[index as int]@;
                let g = selection_group(r.group);
                let before = strings_view(old(self).expanded_groups@);
                &&& strings_view(final(self).expanded_groups@) == if expand_group && !before.contains(g) {
                    before.push(g)
                } else {
                    before
                }
                &&& match final(self).selected {
                    Some(SelectedItem::Route(sel)) => sel.group@ == g && sel.name@ == r.name && sel.method@
                        == method_label(r.method) && sel.url@ == r.url,
                    _ => false,
                }
            }),
    {
        if index >= routes.len() {
            return;
        }
        let route = &routes[index];
        let group_name = if str_is_blank(route.group.as_str()) {
            crate::collection::default_route_group()
        } else {
            route.group.clone()
        };
        let ghost before = strings_view(self.expanded_groups@);
        if expand_group {
            let gc = crate::text::string_chars(&group_name);
            let mut present = false;
            let mut i: usize = 0;
            while i < self.expanded_groups.len()
                invariant
                    i <= self.expanded_groups@.len(),
                    before == strings_view(self.expanded_groups@),
                    gc@ == group_name@,
                    present == before.take(i as int).contains(group_name@),
                decreases self.expanded_groups.len() - i,
            {
                let same = crate::text::chars_equal(&crate::text::string_chars(&self.expanded_groups[i]), &gc);
                proof {
                    assert(before[i as int] == self.expanded_groups@[i as int]@);
                    assert(before.take(i + 1) =~= before.take(i as int).push(before[i as int]));
                    if same {
                        assert(before.take(i + 1)[i as int] == group_name@);
                    }
                    if before.take(i + 1).contains(group_name@) && !before.take(i as int).contains(group_name@) {
                        let j = choose|j: int| 0 <= j < i + 1 && #[trigger] before.take(i + 1)[j] == group_name@;
                        if j < i {
                            assert(before.take(i as int)[j] == group_name@);
                        }
                    }
                    if before.take(i as int).contains(group_name@) {
                        let j = choose|j: int| 0 <= j < i && #[trigger] before.take(i as int)[j] == group_name@;
                        assert(before.take(i + 1)[j] == group_name@);
                    }
                }
                present = present || same;
                i += 1;
            }
            proof {
                assert(before.take(i as int) =~= before);
            }
            if !present {
                self.expanded_groups.push(group_name);
                proof {
                    assert(strings_view(self.expanded_groups@) =~= before.push(selection_group(route@.group)));
                }
            }
        }
        self.selected = Some(SelectedItem::Route(RouteSelection::from_route(route)));
    }
}

} // verus!

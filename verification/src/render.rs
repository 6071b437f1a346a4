use vstd::prelude::*;
use crate::state::Tab;
use crate::types::Search;

verus! {

/// Which menu entry a tab highlights.
pub open spec fn tab_index_spec(t: Tab) -> int {
    match t {
        Tab::Home => 0,
        Tab::Results => 1,
    }
}

/// The highlighted entry of the tab bar for the active tab.
pub fn tab_index(t: Tab) -> (i: usize)
    ensures
        i == tab_index_spec(t),
{
    match t {
        Tab::Home => 0,
        Tab::Results => 1,
    }
}

/// The menu entries of the tab bar, in display order.
pub fn menu_titles() -> (r: Vec<String>)
    ensures
        r@.len() == 3,
        r@[0]@ == "Home"@,
        r@[1]@ == "Results"@,
        r@[2]@ == "Quit"@,
{
    let mut v: Vec<String> = Vec::new();
    v.push("Home".to_owned());
    v.push("Results".to_owned());
    v.push("Quit".to_owned());
    v
}

/// The lines of the Home page body, blank separators included.
pub fn home_lines() -> (r: Vec<String>)
    ensures
        r@.len() == 8,
        r@[0]@ == ""@,
        r@[1]@ == "Welcome"@,
        r@[2]@ == ""@,
        r@[3]@ == "to"@,
        r@[4]@ == ""@,
        r@[5]@ == "xPedia"@,
        r@[6]@ == ""@,
        r@[7]@ == "Press 's' to search"@,
{
    let mut v: Vec<String> = Vec::new();
    v.push("".to_owned());
    v.push("Welcome".to_owned());
    v.push("".to_owned());
    v.push("to".to_owned());
    v.push("".to_owned());
    v.push("xPedia".to_owned());
    v.push("".to_owned());
    v.push("Press 's' to search".to_owned());
    v
}

/// The rows of the result list panel: one row per hit, carrying its title,
/// or the literal placeholder row when the result list is empty.
pub fn search_list_titles(results: &Vec<Search>) -> (r: Vec<String>)
    ensures
        results@.len() == 0 ==> r@.len() == 1 && r@[0]@ == "No Results found"@,
        results@.len() > 0 ==> r@.len() == results@.len() && forall|i: int|
            0 <= i < results@.len() ==> r@[i]@ == results@[i].title@,
{
    let mut r: Vec<String> = Vec::new();
    if results.len() == 0 {
        r.push("No Results found".to_owned());
    } else {
        let n = results.len();
        let mut i: usize = 0;
        while i < n
            invariant
                n == results@.len(),
                i <= n,
                r@.len() == i,
                forall|j: int| 0 <= j < i ==> r@[j]@ == results@[j].title@,
            decreases n - i,
        {
            r.push(results[i].title.clone());
            i += 1;
        }
    }
    r
}

/// The hit the detail panel describes: the selected one, checked
/// defensively against the result list so that a mismatch between the
/// selection and the list can never crash the renderer.
pub fn get_selected_search<'a>(results: &'a Vec<Search>, selected: Option<usize>) -> (r: Option<
    &'a Search,
>)
    ensures
        r is Some <==> (selected matches Some(i) && (i as int) < results@.len()),
        (r matches Some(h) ==> selected matches Some(i) && (i as int) < results@.len() && h@
            == results@[i as int]@),
{
    match selected {
        Some(i) => if i < results.len() {
            Some(&results[i])
        } else {
            None
        },
        None => None,
    }
}

} // verus!

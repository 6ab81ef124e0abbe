//! The services list: which of an agent's required secrets are missing.
use vstd::prelude::*;
use crate::dashboard::config::string_views;

verus! {

/// The body of `PUT /api/microservices/{id}`: whether the sidebar shows it.
#[derive(Debug, Clone, Copy)]
pub struct ToggleBody {
    pub enabled: bool,
}

/// The required keys that are not among the configured ones, in order.
pub open spec fn missing_of(required: Seq<Seq<char>>, configured: Seq<Seq<char>>) -> Seq<Seq<char>>
    decreases required.len(),
{
    if required.len() == 0 {
        Seq::empty()
    } else {
        missing_of(required.drop_last(), configured) + if configured.contains(required.last()) {
            Seq::empty()
        } else {
            seq![required.last()]
        }
    }
}

fn is_configured(key: &String, configured: &Vec<String>) -> (res: bool)
    ensures
        res == string_views(configured@).contains(key@),
{
    for i in 0..configured.len()
        invariant
            forall|k: int| 0 <= k < i ==> configured@[k]@ != key@,
    {
        if configured[i] == *key {
            assert(string_views(configured@)[i as int] == key@);
            return true;
        }
    }
    proof {
        if string_views(configured@).contains(key@) {
            let k = choose|k: int| 0 <= k < configured@.len() && string_views(configured@)[k] == key@;
            assert(configured@[k]@ == key@);
        }
    }
    false
}

/// The secrets an agent requires that the platform does not hold.
pub fn missing_secrets(required: &Vec<String>, configured: &Vec<String>) -> (res: Vec<String>)
    ensures
        string_views(res@) == missing_of(string_views(required@), string_views(configured@)),
{
    let mut res: Vec<String> = Vec::new();
    assert(string_views(required@).take(0) =~= Seq::<Seq<char>>::empty());
    for i in 0..required.len()
        invariant
            string_views(res@) == missing_of(
                string_views(required@).take(i as int),
                string_views(configured@),
            ),
    {
        let ghost before = res@;
        assert(string_views(required@).take(i + 1).drop_last() == string_views(required@).take(
            i as int,
        ));
        assert(string_views(required@).take(i + 1).last() == required@[i as int]@);
        if !is_configured(&required[i], configured) {
            res.push(required[i].clone());
            assert(string_views(res@) =~= string_views(before).push(required@[i as int]@));
        }
    }
    assert(string_views(required@).take(required.len() as int) == string_views(required@));
    res
}

} // verus!

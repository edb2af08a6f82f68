//! Notification channels (chat platforms) and the tenants each one serves.
use vstd::prelude::*;
use crate::auth::{is_super_admin_refusal, require_non_empty, require_super_admin, required_message, AppError, AuthUser, Id};
use crate::text::{owned, trim};

verus! {

/// Checks a new channel: the caller is a super admin, a name and a platform are given, and it
/// serves at least one tenant.
pub fn check_new_channel(auth: &AuthUser, name: &str, platform: &str, tenant_count: usize) -> (r: Result<(), AppError>)
    ensures
        r is Ok <==> auth.spec_is_super_admin() && trim(name@).len() > 0 && trim(platform@).len() > 0 && tenant_count > 0,
        r matches Err(e) ==> if !auth.spec_is_super_admin() {
            is_super_admin_refusal(e, "create channels"@)
        } else if trim(name@).len() == 0 {
            e == AppError::BadRequest(e->BadRequest_0) && e->BadRequest_0@ == required_message("Name"@)
        } else if trim(platform@).len() == 0 {
            e == AppError::BadRequest(e->BadRequest_0) && e->BadRequest_0@ == required_message("Platform"@)
        } else {
            e.is_bad_request() && e.spec_message() == "At least one tenant is required"@
        },
{
    require_super_admin(auth, "create channels")?;
    require_non_empty(name, "Name")?;
    require_non_empty(platform, "Platform")?;
    if tenant_count == 0 {
        return Err(AppError::BadRequest(owned("At least one tenant is required")));
    }
    Ok(())
}

/// Checks the tenants given to a channel when it is changed: none given keeps them, an empty
/// list is refused.
pub fn check_channel_tenants(tenants: &Option<Vec<Id>>) -> (r: Result<(), AppError>)
    ensures
        r is Ok <==> !(tenants matches Some(t) && t@.len() == 0),
        r matches Err(e) ==> e.is_bad_request() && e.spec_message() == "At least one tenant is required"@,
{
    match tenants {
        Some(t) => if t.len() == 0 {
            Err(AppError::BadRequest(owned("At least one tenant is required")))
        } else {
            Ok(())
        },
        None => Ok(()),
    }
}

/// The tenants stored for a channel from a list: each once, in increasing order.
pub open spec fn stored_tenants(given: Seq<Id>, r: Seq<Id>) -> bool {
    &&& forall|i: int, j: int| 0 <= i < j < r.len() ==> r[i] < r[j]
    &&& forall|x: Id| r.contains(x) <==> given.contains(x)
}

pub open spec fn increasing(r: Seq<Id>) -> bool {
    forall|i: int, j: int| 0 <= i < j < r.len() ==> r[i] < r[j]
}

pub open spec fn in_prefix(ids: Seq<Id>, n: int, y: Id) -> bool {
    exists|m: int| 0 <= m < n && ids[m] == y
}

/// The tenants a channel keeps after being given `ids` (duplicates dropped, in order of id).
pub fn stored_tenant_ids(ids: &Vec<Id>) -> (r: Vec<Id>)
    ensures
        stored_tenants(ids@, r@),
{
    let mut out: Vec<Id> = Vec::new();
    let mut i: usize = 0;
    while i < ids.len()
        invariant
            i <= ids.len(),
            increasing(out@),
            forall|y: Id| out@.contains(y) <==> in_prefix(ids@, i as int, y),
        decreases ids.len() - i,
    {
        let x = ids[i];
        let mut j: usize = 0;
        while j < out.len() && out[j] < x
            invariant
                j <= out@.len(),
                forall|k: int| 0 <= k < j ==> out@[k] < x,
            decreases out.len() - j,
        {
            j = j + 1;
        }
        let ghost before = out@;
        if j == out.len() || out[j] != x {
            out.insert(j, x);
            proof {
                assert forall|a: int, b: int| 0 <= a < b < out@.len() implies out@[a] < out@[b] by {
                    if b < j as int {
                    } else if a < j as int && b == j as int {
                    } else if a < j as int {
                        assert(out@[b] == before[b - 1]);
                        assert(x < before[j as int]);
                        if b - 1 > j as int {
                            assert(before[j as int] < before[b - 1]);
                        }
                    } else if a == j as int {
                        assert(out@[b] == before[b - 1]);
                        assert(x < before[j as int]);
                        if b - 1 > j as int {
                            assert(before[j as int] < before[b - 1]);
                        }
                    } else {
                        assert(out@[a] == before[a - 1] && out@[b] == before[b - 1]);
                    }
                }
                assert forall|y: Id| out@.contains(y) <==> in_prefix(ids@, i + 1, y) by {
                    if out@.contains(y) {
                        let k = choose|k: int| 0 <= k < out@.len() && out@[k] == y;
                        if y == x {
                            assert(ids@[i as int] == y);
                        } else {
                            if k < j as int {
                                assert(before[k] == y);
                            } else {
                                assert(before[k - 1] == y);
                            }
                            assert(before.contains(y));
                            let m = choose|m: int| 0 <= m < i && ids@[m] == y;
                            assert(ids@[m] == y);
                        }
                    }
                    if in_prefix(ids@, i + 1, y) {
                        if y == x {
                            assert(out@[j as int] == x);
                        } else {
                            let m = choose|m: int| 0 <= m < i + 1 && ids@[m] == y;
                            assert(m != i);
                            assert(in_prefix(ids@, i as int, y));
                            assert(before.contains(y));
                            let k = choose|k: int| 0 <= k < before.len() && before[k] == y;
                            if k < j as int {
                                assert(out@[k] == y);
                            } else {
                                assert(out@[k + 1] == y);
                            }
                        }
                    }
                }
            }
        } else {
            proof {
                assert forall|y: Id| out@.contains(y) <==> in_prefix(ids@, i + 1, y) by {
                    if in_prefix(ids@, i + 1, y) {
                        if y == x {
                            assert(out@[j as int] == x);
                        } else {
                            let m = choose|m: int| 0 <= m < i + 1 && ids@[m] == y;
                            assert(m != i);
                            assert(in_prefix(ids@, i as int, y));
                        }
                    }
                    if out@.contains(y) {
                        let m = choose|m: int| 0 <= m < i && ids@[m] == y;
                        assert(ids@[m] == y);
                    }
                }
            }
        }
        i = i + 1;
    }
    proof {
        assert forall|y: Id| out@.contains(y) <==> ids@.contains(y) by {
            if ids@.contains(y) {
                let m = choose|m: int| 0 <= m < ids@.len() && ids@[m] == y;
                assert(in_prefix(ids@, ids@.len() as int, y));
            }
        }
    }
    out
}

/// The tenants of each channel from the channel-tenant links, each channel's in the order of the
/// links; a channel listed twice gets them the first time only.
pub open spec fn tenants_of(channel: Id, links: Seq<(Id, Id)>) -> Seq<Id>
    decreases links.len(),
{
    if links.len() == 0 {
        Seq::empty()
    } else {
        tenants_of(channel, links.drop_last()) + if links.last().0 == channel { seq![links.last().1] } else { Seq::empty() }
    }
}

pub fn channel_tenants(channels: &Vec<Id>, links: &Vec<(Id, Id)>) -> (r: Vec<Vec<Id>>)
    ensures
        r@.len() == channels@.len(),
        forall|i: int| 0 <= i < channels@.len() ==> (#[trigger] r@[i])@ == if exists|j: int| 0 <= j < i && channels@[j] == channels@[i] {
            Seq::<Id>::empty()
        } else {
            tenants_of(channels@[i], links@)
        },
{
    let mut out: Vec<Vec<Id>> = Vec::new();
    let mut i: usize = 0;
    while i < channels.len()
        invariant
            i <= channels.len(),
            out@.len() == i,
            forall|a: int| 0 <= a < i ==> (#[trigger] out@[a])@ == if exists|j: int| 0 <= j < a && channels@[j] == channels@[a] {
                Seq::<Id>::empty()
            } else {
                tenants_of(channels@[a], links@)
            },
        decreases channels.len() - i,
    {
        let c = channels[i];
        let mut seen = false;
        let mut j: usize = 0;
        while j < i
            invariant
                j <= i,
                i < channels@.len(),
                c == channels@[i as int],
                seen <==> exists|k: int| 0 <= k < j && channels@[k] == c,
            decreases i - j,
        {
            if channels[j] == c {
                seen = true;
            }
            j = j + 1;
        }
        let mut mine: Vec<Id> = Vec::new();
        if !seen {
            let mut k: usize = 0;
            while k < links.len()
                invariant
                    k <= links.len(),
                    mine@ == tenants_of(c, links@.take(k as int)),
                decreases links.len() - k,
            {
                proof {
                    assert(links@.take(k + 1).drop_last() =~= links@.take(k as int));
                }
                if links[k].0 == c {
                    mine.push(links[k].1);
                }
                k = k + 1;
            }
            proof {
                assert(links@.take(links@.len() as int) =~= links@);
            }
        } else {
            proof {
                assert(mine@ =~= Seq::<Id>::empty());
            }
        }
        out.push(mine);
        i = i + 1;
    }
    out
}

} // verus!

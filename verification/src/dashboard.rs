//! Dashboard presentation decisions that are plain arithmetic over the
//! state: grid geometry, selection clamping, ordering and coloring.

use vstd::prelude::*;
use crate::domain::session::Session;
use vstd::string::StrSliceExecFns;

verus! {

/// The column count of the overview grid: the smallest count whose square
/// covers the tiles, and one column for at most one tile.
pub fn compute_columns(count: usize, width: u16, height: u16) -> (r: usize)
    ensures
        count <= 1 ==> r == 1,
        count > 1 ==> r * r >= count && (r - 1) * (r - 1) < count,
{
    if count <= 1 {
        return 1;
    }
    let mut r: usize = 1;
    loop
        invariant
            1 <= r <= count,
            ((r - 1) * (r - 1)) < count,
        ensures
            1 <= r,
            r * r >= count,
            ((r - 1) * (r - 1)) < count,
        decreases count - r,
    {
        match r.checked_mul(r) {
            Some(sq) => {
                if sq >= count {
                    break;
                }
                proof {
                    assert(r <= r * r) by (nonlinear_arith)
                        requires
                            r >= 1,
                    ;
                }
                r = r + 1;
            },
            None => {
                break;
            },
        }
    }
    r
}

/// A text clipped to at most `max` characters.
pub fn truncate(s: &str, max: usize) -> (r: String)
    ensures
        s@.len() <= max ==> r@ == s@,
        s@.len() > max ==> r@ == s@.take(max as int),
{
    let n = s.unicode_len();
    if n <= max {
        s.to_owned()
    } else {
        let head = s.substring_char(0, max);
        head.to_owned()
    }
}

/// The palette slot a session's identifier selects: its leading byte
/// modulo the palette size.
pub fn session_color_index(id: u128) -> (r: usize)
    ensures
        r == (id >> 120) % 10,
        r < 10,
{
    let b = (id >> 120) as u64;
    proof {
        assert(id >> 120 < 256) by (bit_vector);
    }
    (b % 10) as usize
}

/// Clamps the selection indices after the state changed under the
/// dashboard: an empty list selects nothing, and an index past the end
/// moves to the last entry.
pub fn clamp_selection(
    selected_session: usize,
    selected_agent: usize,
    session_count: usize,
    agent_count: usize,
) -> (r: (usize, usize))
    ensures
        session_count == 0 ==> r == (0usize, 0usize),
        session_count > 0 ==> r.0 == (if selected_session < session_count {
            selected_session
        } else {
            (session_count - 1) as usize
        }),
        session_count > 0 && agent_count == 0 ==> r.1 == 0,
        session_count > 0 && agent_count > 0 ==> r.1 == (if selected_agent < agent_count {
            selected_agent
        } else {
            (agent_count - 1) as usize
        }),
{
    if session_count == 0 {
        (0, 0)
    } else {
        let s = if selected_session < session_count {
            selected_session
        } else {
            session_count - 1
        };
        let a = if agent_count == 0 {
            0
        } else if selected_agent < agent_count {
            selected_agent
        } else {
            agent_count - 1
        };
        (s, a)
    }
}

/// The dashboard's session order: the non-archived sessions, the main ones
/// pinned first, each group in state order.
pub fn visible_session_indices(sessions: &Vec<Session>) -> (r: Vec<usize>)
    ensures
        forall|k: int|
            0 <= k < r@.len() ==> (#[trigger] r@[k]) < sessions@.len() && !(sessions@[r@[k] as int].status
                is Archived),
        forall|i: int|
            0 <= i < sessions@.len() && !((#[trigger] sessions@[i]).status is Archived)
                ==> r@.contains(i as usize),
        forall|k1: int, k2: int|
            0 <= k1 < k2 < r@.len() && sessions@[r@[k1] as int].is_main
                == sessions@[r@[k2] as int].is_main ==> r@[k1] < r@[k2],
        forall|k1: int, k2: int|
            0 <= k1 < k2 < r@.len() ==> !(!sessions@[r@[k1] as int].is_main
                && sessions@[r@[k2] as int].is_main),
{
    let mut r: Vec<usize> = Vec::new();
    let mut i: usize = 0;
    while i < sessions.len()
        invariant
            0 <= i <= sessions@.len(),
            forall|k: int|
                0 <= k < r@.len() ==> (#[trigger] r@[k]) < i && !(sessions@[r@[k] as int].status
                    is Archived) && sessions@[r@[k] as int].is_main,
            forall|k1: int, k2: int| 0 <= k1 < k2 < r@.len() ==> r@[k1] < r@[k2],
            forall|j: int|
                0 <= j < i && !((#[trigger] sessions@[j]).status is Archived)
                    && sessions@[j].is_main ==> r@.contains(j as usize),
        decreases sessions@.len() - i,
    {
        let archived = match &sessions[i].status {
            crate::domain::session::SessionStatus::Archived => true,
            _ => false,
        };
        let ghost pre_r = r@;
        if !archived && sessions[i].is_main {
            r.push(i);
            assert(r@.last() == i as usize);
        }
        proof {
            assert forall|j: int|
                0 <= j < i + 1 && !((#[trigger] sessions@[j]).status is Archived)
                    && sessions@[j].is_main implies r@.contains(j as usize) by {
                if j < i {
                    assert(pre_r.contains(j as usize));
                    let w = choose|w: int| 0 <= w < pre_r.len() && pre_r[w] == j as usize;
                    assert(r@[w] == j as usize);
                } else {
                    assert(r@[r@.len() - 1] == j as usize);
                }
            }
        }
        i = i + 1;
    }
    let ghost mains = r@;
    let mut i2: usize = 0;
    while i2 < sessions.len()
        invariant
            0 <= i2 <= sessions@.len(),
            mains.len() <= r@.len(),
            forall|k: int| 0 <= k < mains.len() ==> #[trigger] r@[k] == mains[k],
            forall|k: int|
                0 <= k < mains.len() ==> (#[trigger] r@[k]) < sessions@.len() && !(
                sessions@[r@[k] as int].status is Archived) && sessions@[r@[k] as int].is_main,
            forall|k: int|
                mains.len() <= k < r@.len() ==> (#[trigger] r@[k]) < i2 && !(
                sessions@[r@[k] as int].status is Archived) && !sessions@[r@[k] as int].is_main,
            forall|k1: int, k2: int|
                0 <= k1 < k2 < r@.len() && ((k2 < mains.len()) || (mains.len() <= k1)) ==> r@[k1]
                    < r@[k2],
            forall|j: int|
                0 <= j < sessions@.len() && !((#[trigger] sessions@[j]).status is Archived)
                    && sessions@[j].is_main ==> r@.contains(j as usize),
            forall|j: int|
                0 <= j < i2 && !((#[trigger] sessions@[j]).status is Archived)
                    && !sessions@[j].is_main ==> r@.contains(j as usize),
        decreases sessions@.len() - i2,
    {
        let archived = match &sessions[i2].status {
            crate::domain::session::SessionStatus::Archived => true,
            _ => false,
        };
        let ghost pre_r = r@;
        if !archived && !sessions[i2].is_main {
            r.push(i2);
            assert(r@.last() == i2 as usize);
        }
        proof {
            assert forall|j: int|
                0 <= j < sessions@.len() && !((#[trigger] sessions@[j]).status is Archived)
                    && sessions@[j].is_main implies r@.contains(j as usize) by {
                assert(pre_r.contains(j as usize));
                let w = choose|w: int| 0 <= w < pre_r.len() && pre_r[w] == j as usize;
                assert(r@[w] == j as usize);
            }
            assert forall|j: int|
                0 <= j < i2 + 1 && !((#[trigger] sessions@[j]).status is Archived) && !sessions@[j].is_main
                 implies r@.contains(j as usize) by {
                if j < i2 {
                    assert(pre_r.contains(j as usize));
                    let w = choose|w: int| 0 <= w < pre_r.len() && pre_r[w] == j as usize;
                    assert(r@[w] == j as usize);
                } else {
                    assert(r@[r@.len() - 1] == j as usize);
                }
            }
        }
        i2 = i2 + 1;
    }
    r
}

} // verus!

//! The robot's actuators, and what is made of the replies they send back to
//! a bulk read.
//!
//! | Motor ID | Part          |
//! |----------|---------------|
//! | 11 - 16  | head linkage  |
//! | 17       | left antenna  |
//! | 18       | right antenna |

use vstd::prelude::*;

verus! {

/// The six actuators of the head's parallel linkage, in linkage order.
pub const HEAD_MOTOR_IDS: [u8; 6] = [11, 12, 13, 14, 15, 16];

/// Every actuator: the head's six, then the left and the right antenna.
pub const ALL_MOTOR_IDS: [u8; 8] = [11, 12, 13, 14, 15, 16, 17, 18];

pub const LEFT_ANTENNA_ID: u8 = 17;

pub const RIGHT_ANTENNA_ID: u8 = 18;

/// The first index at which `id` stands in `ids`, if it stands there at all.
pub open spec fn slot_of(ids: Seq<u8>, id: u8) -> Option<int> {
    if exists|k: int| 0 <= k < ids.len() && ids[k] == id {
        Some(choose|k: int| 0 <= k < ids.len() && ids[k] == id && forall|j: int| 0 <= j < k ==> ids[j] != id)
    } else {
        None
    }
}

/// Slots for `ids` after the first `n` readings: each reading sets the slot
/// of its id; a reading for an id that was not asked for is dropped.
pub open spec fn arranged<T>(ids: Seq<u8>, readings: Seq<(u8, T)>, n: int) -> Seq<Option<T>>
    decreases n,
{
    if n <= 0 {
        Seq::new(ids.len(), |k: int| None)
    } else {
        let prev = arranged(ids, readings, n - 1);
        match slot_of(ids, readings[n - 1].0) {
            Some(k) => prev.update(k, Some(readings[n - 1].1)),
            None => prev,
        }
    }
}

/// The ids that answered.
pub open spec fn reading_ids(readings: Seq<(u8, u8)>) -> Seq<u8> {
    readings.map_values(|r: (u8, u8)| r.0)
}

/// Ids of the first `n` readings whose value (an error status) is nonzero,
/// in reading order.
pub open spec fn faulty_ids(readings: Seq<(u8, u8)>, n: int) -> Seq<u8>
    decreases n,
{
    if n <= 0 {
        seq![]
    } else if readings[n - 1].1 != 0 {
        faulty_ids(readings, n - 1).push(readings[n - 1].0)
    } else {
        faulty_ids(readings, n - 1)
    }
}

/// The first `n` expected ids that do not occur in `responded`, in order.
pub open spec fn silent_ids(expected: Seq<u8>, responded: Seq<u8>, n: int) -> Seq<u8>
    decreases n,
{
    if n <= 0 {
        seq![]
    } else if !responded.contains(expected[n - 1]) {
        silent_ids(expected, responded, n - 1).push(expected[n - 1])
    } else {
        silent_ids(expected, responded, n - 1)
    }
}

/// Where `id` first stands in `ids`.
fn find_slot(ids: &[u8], id: u8) -> (r: Option<usize>)
    ensures
        match r {
            Some(k) => k < ids@.len() && slot_of(ids@, id) == Some(k as int),
            None => slot_of(ids@, id) == None::<int>,
        },
{
    let mut k: usize = 0;
    while k < ids.len()
        invariant
            k <= ids@.len(),
            forall|j: int| 0 <= j < k ==> ids@[j] != id,
        decreases ids@.len() - k,
    {
        if ids[k] == id {
            proof {
                let w = choose|w: int|
                    0 <= w < ids@.len() && ids@[w] == id && forall|j: int|
                        0 <= j < w ==> ids@[j] != id;
                assert(0 <= k < ids@.len() && ids@[k as int] == id && forall|j: int|
                    0 <= j < k ==> ids@[j] != id);
                assert(w == k) by {
                    if w < k {
                        assert(ids@[w] != id);
                    } else if w > k {
                        assert(ids@[k as int] != id);
                    }
                }
            }
            return Some(k);
        }
        k = k + 1;
    }
    None
}

/// Lays readings `(id, value)` out in the order of `motor_ids`: slot `k`
/// holds the value of the last reading for `motor_ids[k]`, or `None` where
/// that actuator did not answer. Readings for other ids are dropped.
pub fn arrange_by_id<T: Copy>(motor_ids: &[u8], readings: &[(u8, T)]) -> (r: Vec<Option<T>>)
    ensures
        r@ == arranged(motor_ids@, readings@, readings@.len() as int),
        r@.len() == motor_ids@.len(),
{
    let mut slots: Vec<Option<T>> = Vec::new();
    let mut i: usize = 0;
    while i < motor_ids.len()
        invariant
            i <= motor_ids@.len(),
            slots@ == Seq::new(i as nat, |k: int| None::<T>),
        decreases motor_ids@.len() - i,
    {
        slots.push(None);
        i = i + 1;
        proof {
            assert(slots@ =~= Seq::new(i as nat, |k: int| None::<T>));
        }
    }
    proof {
        assert(slots@ =~= arranged(motor_ids@, readings@, 0));
    }
    let mut j: usize = 0;
    while j < readings.len()
        invariant
            j <= readings@.len(),
            slots@ == arranged(motor_ids@, readings@, j as int),
            slots@.len() == motor_ids@.len(),
        decreases readings@.len() - j,
    {
        let (id, value) = readings[j];
        match find_slot(motor_ids, id) {
            Some(k) => {
                slots.set(k, Some(value));
            },
            None => {},
        }
        j = j + 1;
    }
    slots
}

/// What a read of the hardware error status of every actuator showed.
#[derive(Debug, PartialEq, Eq)]
pub struct ErrorSurvey {
    /// How many of the expected actuators answered.
    pub motors_checked: usize,
    /// Actuators that reported a nonzero error status, in reply order.
    pub motors_with_errors: Vec<u8>,
    /// Expected actuators that did not answer, in the expected order.
    pub motors_no_response: Vec<u8>,
}

/// Whether some reading comes from `id`.
fn has_reading(readings: &[(u8, u8)], id: u8) -> (r: bool)
    ensures
        r == reading_ids(readings@).contains(id),
{
    let mut j: usize = 0;
    while j < readings.len()
        invariant
            j <= readings@.len(),
            forall|x: int| 0 <= x < j ==> readings@[x].0 != id,
        decreases readings@.len() - j,
    {
        if readings[j].0 == id {
            proof {
                assert(reading_ids(readings@)[j as int] == id);
            }
            return true;
        }
        j = j + 1;
    }
    proof {
        assert forall|x: int| 0 <= x < reading_ids(readings@).len() implies reading_ids(
            readings@,
        )[x] != id by {
            assert(readings@[x].0 != id);
        }
    }
    false
}

/// Sorts the actuators of `expected` by what a bulk read of their hardware
/// error status returned (`readings`, as `(id, status)`): those that report
/// an error, which are the ones to reboot, and those that did not answer.
pub fn survey_hardware_errors(expected: &[u8], readings: &[(u8, u8)]) -> (r: ErrorSurvey)
    ensures
        r.motors_with_errors@ == faulty_ids(readings@, readings@.len() as int),
        r.motors_no_response@ == silent_ids(
            expected@,
            reading_ids(readings@),
            expected@.len() as int,
        ),
        r.motors_checked == expected@.len() - r.motors_no_response@.len(),
{
    let mut with_errors: Vec<u8> = Vec::new();
    let mut j: usize = 0;
    while j < readings.len()
        invariant
            j <= readings@.len(),
            with_errors@ == faulty_ids(readings@, j as int),
        decreases readings@.len() - j,
    {
        let (id, status) = readings[j];
        if status != 0 {
            with_errors.push(id);
        }
        j = j + 1;
    }
    let mut no_response: Vec<u8> = Vec::new();
    let mut i: usize = 0;
    while i < expected.len()
        invariant
            i <= expected@.len(),
            no_response@ == silent_ids(expected@, reading_ids(readings@), i as int),
            no_response@.len() <= i,
        decreases expected@.len() - i,
    {
        let id = expected[i];
        if !has_reading(readings, id) {
            no_response.push(id);
        }
        i = i + 1;
    }
    ErrorSurvey {
        motors_checked: expected.len() - no_response.len(),
        motors_with_errors: with_errors,
        motors_no_response: no_response,
    }
}

} // verus!

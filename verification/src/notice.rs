//! The message that announces new ranges, and the addresses that the
//! service and the messenger are asked at.

use vstd::prelude::*;
use crate::calendar::text_of;
use crate::timeslot::Timeslot;

verus! {

/// One described range per line, each line closed by an encoded line break,
/// or `None` where a range cannot be described.
pub open spec fn notice_lines(list: Seq<Timeslot>) -> Option<Seq<char>>
    decreases list.len(),
{
    if list.len() == 0 {
        Some(Seq::empty())
    } else {
        match (notice_lines(list.drop_last()), list.last().description()) {
            (Some(lines), Some(line)) => Some(lines + line + "%0A"@),
            _ => None,
        }
    }
}

/// The message for a list of new ranges. An empty list has no message.
pub open spec fn notice_writing(list: Seq<Timeslot>) -> Option<Seq<char>> {
    if list.len() == 0 {
        None
    } else {
        match notice_lines(list) {
            Some(lines) => Some("New available times:%0A"@ + lines),
            None => None,
        }
    }
}

/// Once a range cannot be described, neither can any longer list.
pub proof fn lemma_undescribed_stays(list: Seq<Timeslot>, upto: int)
    requires
        0 <= upto <= list.len(),
        notice_lines(list.take(upto)) is None,
    ensures
        notice_lines(list) is None,
    decreases list.len() - upto,
{
    if upto < list.len() {
        assert(list.take(upto + 1).drop_last() == list.take(upto));
        lemma_undescribed_stays(list, upto + 1);
    } else {
        assert(list.take(upto) == list);
    }
}

/// The message that lists the new ranges, one per line. `None` where there
/// is nothing new, so nothing to send, or where a range cannot be described.
pub fn notification_text(new_times: &Vec<Timeslot>) -> (message: Option<String>)
    ensures
        text_of(message) == notice_writing(new_times@),
{
    if new_times.len() == 0 {
        return None;
    }
    let mut message = String::new();
    message.append("New available times:%0A");
    let ghost head = message@;
    let mut i: usize = 0;
    proof {
        assert(new_times@.take(0) == Seq::<Timeslot>::empty());
        assert(head + Seq::<char>::empty() == head);
    }
    while i < new_times.len()
        invariant
            i <= new_times.len(),
            head == "New available times:%0A"@,
            notice_lines(new_times@.take(i as int)) is Some,
            message@ == head + notice_lines(new_times@.take(i as int)).unwrap(),
        decreases new_times.len() - i,
    {
        proof {
            let upto = new_times@.take(i as int + 1);
            assert(upto.drop_last() == new_times@.take(i as int));
            assert(upto.last() == new_times@[i as int]);
        }
        match new_times[i].describe() {
            Some(line) => {
                let ghost lines = notice_lines(new_times@.take(i as int)).unwrap();
                message.append(line.as_str());
                message.append("%0A");
                assert(message@ == head + (lines + line@ + "%0A"@));
            },
            None => {
                proof {
                    lemma_undescribed_stays(new_times@, i as int + 1);
                }
                return None;
            },
        }
        i += 1;
    }
    proof {
        assert(new_times@.take(i as int) == new_times@);
    }
    Some(message)
}

/// The address that asks the booking service for the opening hours and
/// reservations between two instants.
pub open spec fn request_address(start: Seq<char>, end: Seq<char>) -> Seq<char> {
    "https://api.hel.fi/respa/v1/resource/axwzr3i57yba/?start="@ + start + "&end="@ + end
        + "&format=json"@
}

pub fn request_url(start: &str, end: &str) -> (url: String)
    ensures
        url@ == request_address(start@, end@),
{
    let mut url = String::new();
    url.append("https://api.hel.fi/respa/v1/resource/axwzr3i57yba/?start=");
    url.append(start);
    url.append("&end=");
    url.append(end);
    url.append("&format=json");
    assert(url@ =~= request_address(start@, end@));
    url
}

/// The address that hands a message to the messenger.
pub open spec fn message_address(bot_token: Seq<char>, chat_id: Seq<char>, message: Seq<char>) -> Seq<
    char,
> {
    "https://api.telegram.org/bot"@ + bot_token + "/sendMessage?chat_id="@ + chat_id + "&text="@
        + message
}

pub fn message_url(bot_token: &str, chat_id: &str, message: &str) -> (url: String)
    ensures
        url@ == message_address(bot_token@, chat_id@, message@),
{
    let mut url = String::new();
    url.append("https://api.telegram.org/bot");
    url.append(bot_token);
    url.append("/sendMessage?chat_id=");
    url.append(chat_id);
    url.append("&text=");
    url.append(message);
    assert(url@ =~= message_address(bot_token@, chat_id@, message@));
    url
}

} // verus!

//! Reading notifications that other programs post through tsuuchi.

use vstd::prelude::*;

use tsuuchi::Notification as TsuuchiNotification;

use crate::notification::{SourceNotification, Urgency};

verus! {

/// The `title` field of a `tsuuchi::Notification`.
pub uninterp spec fn tsuuchi_title(n: TsuuchiNotification) -> Seq<char>;

/// The `body` field of a `tsuuchi::Notification`.
pub uninterp spec fn tsuuchi_body(n: TsuuchiNotification) -> Seq<char>;

/// The `urgency` field of a `tsuuchi::Notification`, as the level of the
/// same name.
pub uninterp spec fn tsuuchi_urgency(n: TsuuchiNotification) -> Urgency;

/// Reads title, body and urgency out of a `tsuuchi::Notification`.
///
/// Trusted: clones the public fields `title` and `body` and maps each
/// variant of `tsuuchi::Urgency` to the variant of the same name. The
/// contract names those three fields (`tsuuchi_title`, `tsuuchi_body`,
/// `tsuuchi_urgency`), since Verus cannot see inside the outside value.
#[verifier::external_body]
pub(crate) fn read_tsuuchi(notif: &TsuuchiNotification) -> (r: SourceNotification)
    ensures
        r.title@ == tsuuchi_title(*notif),
        r.body@ == tsuuchi_body(*notif),
        r.urgency == tsuuchi_urgency(*notif),
{
    let urgency = match notif.urgency {
        tsuuchi::Urgency::Low => Urgency::Low,
        tsuuchi::Urgency::Normal => Urgency::Normal,
        tsuuchi::Urgency::Critical => Urgency::Critical,
    };
    SourceNotification { title: notif.title.clone(), body: notif.body.clone(), urgency }
}

#[verifier::external_type_specification]
#[verifier::external_body]
pub struct ExTsuuchiNotification(TsuuchiNotification);

} // verus!

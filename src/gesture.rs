//! Keypoint data attached to a recorded hand gesture.
use vstd::prelude::*;

verus! {

/// The keypoints of one detected gesture, as stored beside its record.
#[derive(Debug, Clone)]
pub struct KeypointData {
    pub id: Option<i64>,
    pub record_id: i64,
    /// The keypoints, serialised as JSON.
    pub keypoints: String,
    pub frame_width: i32,
    pub frame_height: i32,
    pub created_at: Option<String>,
}

/// The keypoint row to store for record `record_id`: one exists exactly when
/// the keypoints and both frame dimensions were supplied. It has no identifier
/// or creation time yet; the store assigns those.
pub fn keypoint_row(
    record_id: i64,
    keypoints: Option<String>,
    frame_width: Option<i32>,
    frame_height: Option<i32>,
) -> (row: Option<KeypointData>)
    ensures
        row.is_some() <==> (keypoints.is_some() && frame_width.is_some()
            && frame_height.is_some()),
        row matches Some(r) ==> {
            &&& r.id.is_none()
            &&& r.record_id == record_id
            &&& r.keypoints == keypoints.unwrap()
            &&& r.frame_width == frame_width.unwrap()
            &&& r.frame_height == frame_height.unwrap()
            &&& r.created_at.is_none()
        },
{
    match (keypoints, frame_width, frame_height) {
        (Some(kp), Some(fw), Some(fh)) => Some(
            KeypointData {
                id: None,
                record_id,
                keypoints: kp,
                frame_width: fw,
                frame_height: fh,
                created_at: None,
            },
        ),
        _ => None,
    }
}

} // verus!

//! Volume texture management: validation of a cube against the device's
//! 3D-texture limit and replacement of the currently bound volume.
//!
//! The GPU texture itself lives in the unverified device layer, keyed by
//! the handle identifier this module hands out; a superseded volume stays
//! valid until the device layer drops it, so a failed upload leaves the
//! previous binding fully usable.

use vstd::prelude::*;

verus! {

/// Why a GPU-side operation on a volume was rejected.
#[derive(Clone, Copy, Debug, PartialEq, Eq, Structural)]
pub enum GpuError {
    /// Some axis of the requested volume exceeds the device's maximum
    /// 3D-texture extent.  This is a hard failure, never a silent clamp.
    VolumeTooLarge,
}

/// A bound volume: an identifier for the device-side texture and the extent
/// it was created with.
#[derive(Clone, Copy, Debug, PartialEq, Eq, Structural)]
pub struct VolumeHandle {
    pub id: u64,
    pub width: u32,
    pub height: u32,
    pub depth: u32,
}

/// The bulk-write layout for one volume upload: samples are written in one
/// bulk transfer, rows of `bytes_per_row` bytes, `rows_per_image` rows per
/// depth slice.
#[derive(Clone, Copy, Debug, PartialEq, Eq, Structural)]
pub struct UploadPlan {
    pub width: u32,
    pub height: u32,
    pub depth: u32,
    /// Row pitch: bytes per sample (4) times the width.
    pub bytes_per_row: u64,
    /// Rows per depth slice: the height.
    pub rows_per_image: u32,
}

/// The identifier following `id`, wrapping at the top of the range.
pub open spec fn next_gen(id: u64) -> u64 {
    if id == u64::MAX {
        0u64
    } else {
        (id + 1) as u64
    }
}

/// Whether an extent fits the device's maximum 3D-texture dimension.
pub open spec fn fits_limit(w: u32, h: u32, d: u32, limit: u32) -> bool {
    w <= limit && h <= limit && d <= limit
}

/// Validate an extent against the device limit and lay out the bulk write.
pub fn plan_upload(w: u32, h: u32, d: u32, limit: u32) -> (r: Result<UploadPlan, GpuError>)
    ensures
        fits_limit(w, h, d, limit) ==> r == Ok::<UploadPlan, GpuError>(
            UploadPlan {
                width: w,
                height: h,
                depth: d,
                bytes_per_row: (4 * w as u64) as u64,
                rows_per_image: h,
            },
        ),
        !fits_limit(w, h, d, limit) ==> r == Err::<UploadPlan, GpuError>(GpuError::VolumeTooLarge),
{
    if w <= limit && h <= limit && d <= limit {
        Ok(
            UploadPlan {
                width: w,
                height: h,
                depth: d,
                bytes_per_row: 4 * (w as u64),
                rows_per_image: h,
            },
        )
    } else {
        Err(GpuError::VolumeTooLarge)
    }
}

/// The currently bound volume, if any, and the identifier the next upload
/// will take.
pub struct VolumeStore {
    pub current: Option<VolumeHandle>,
    pub next_id: u64,
}

impl VolumeStore {
    /// A store with no volume bound yet.
    pub fn new() -> (s: VolumeStore)
        ensures
            s.current is None,
            s.next_id == 0,
    {
        VolumeStore { current: None, next_id: 0 }
    }

    /// Bind a new volume of the given extent, superseding the previous one,
    /// after validating the extent against the device limit.
    ///
    /// On success the store binds a fresh handle carrying the extent and the
    /// upload layout is returned for the device layer to execute.  On
    /// failure (`VolumeTooLarge`, exactly when some axis exceeds the limit)
    /// the store is left untouched: the previously bound volume remains
    /// current.
    pub fn upload_volume(&mut self, w: u32, h: u32, d: u32, limit: u32) -> (r: Result<
        (VolumeHandle, UploadPlan),
        GpuError,
    >)
        ensures
            !fits_limit(w, h, d, limit) ==> {
                &&& r == Err::<(VolumeHandle, UploadPlan), GpuError>(GpuError::VolumeTooLarge)
                &&& *final(self) == *old(self)
            },
            fits_limit(w, h, d, limit) ==> {
                let handle = VolumeHandle { id: old(self).next_id, width: w, height: h, depth: d };
                &&& r == Ok::<(VolumeHandle, UploadPlan), GpuError>(
                    (
                        handle,
                        UploadPlan {
                            width: w,
                            height: h,
                            depth: d,
                            bytes_per_row: (4 * w as u64) as u64,
                            rows_per_image: h,
                        },
                    ),
                )
                &&& final(self).current == Some(handle)
                &&& final(self).next_id == next_gen(old(self).next_id)
            },
    {
        match plan_upload(w, h, d, limit) {
            Ok(plan) => {
                let handle = VolumeHandle { id: self.next_id, width: w, height: h, depth: d };
                self.current = Some(handle);
                self.next_id = if self.next_id == u64::MAX {
                    0
                } else {
                    self.next_id + 1
                };
                Ok((handle, plan))
            },
            Err(e) => Err(e),
        }
    }
}

} // verus!

//! The fragment's tag and attribute names, as bytes.
//!
//! Byte-string literals cannot stand inside the verifier's macro, so each
//! name is written out once as its byte values, with a specification mirror
//! beside it.

use vstd::prelude::*;

verus! {

/// The bytes of `id`.
pub open spec fn n_id() -> Seq<u8> {
    seq![105u8, 100u8]
}

/// The bytes of `id`, for running code.
pub fn k_id() -> (k: [u8; 2])
    ensures
        k@ == n_id(),
{
    let k: [u8; 2] = [105u8, 100u8];
    proof {
        assert(k@ =~= n_id());
    }
    k
}

/// The bytes of `name`.
pub open spec fn n_name() -> Seq<u8> {
    seq![110u8, 97u8, 109u8, 101u8]
}

/// The bytes of `name`, for running code.
pub fn k_name() -> (k: [u8; 4])
    ensures
        k@ == n_name(),
{
    let k: [u8; 4] = [110u8, 97u8, 109u8, 101u8];
    proof {
        assert(k@ =~= n_name());
    }
    k
}

/// The bytes of `catno`.
pub open spec fn n_catno() -> Seq<u8> {
    seq![99u8, 97u8, 116u8, 110u8, 111u8]
}

/// The bytes of `catno`, for running code.
pub fn k_catno() -> (k: [u8; 5])
    ensures
        k@ == n_catno(),
{
    let k: [u8; 5] = [99u8, 97u8, 116u8, 110u8, 111u8];
    proof {
        assert(k@ =~= n_catno());
    }
    k
}

/// The bytes of `qty`.
pub open spec fn n_qty() -> Seq<u8> {
    seq![113u8, 116u8, 121u8]
}

/// The bytes of `qty`, for running code.
pub fn k_qty() -> (k: [u8; 3])
    ensures
        k@ == n_qty(),
{
    let k: [u8; 3] = [113u8, 116u8, 121u8];
    proof {
        assert(k@ =~= n_qty());
    }
    k
}

/// The bytes of `duration`.
pub open spec fn n_duration() -> Seq<u8> {
    seq![100u8, 117u8, 114u8, 97u8, 116u8, 105u8, 111u8, 110u8]
}

/// The bytes of `duration`, for running code.
pub fn k_duration() -> (k: [u8; 8])
    ensures
        k@ == n_duration(),
{
    let k: [u8; 8] = [100u8, 117u8, 114u8, 97u8, 116u8, 105u8, 111u8, 110u8];
    proof {
        assert(k@ =~= n_duration());
    }
    k
}

/// The bytes of `src`.
pub open spec fn n_src() -> Seq<u8> {
    seq![115u8, 114u8, 99u8]
}

/// The bytes of `src`, for running code.
pub fn k_src() -> (k: [u8; 3])
    ensures
        k@ == n_src(),
{
    let k: [u8; 3] = [115u8, 114u8, 99u8];
    proof {
        assert(k@ =~= n_src());
    }
    k
}

/// The bytes of `status`.
pub open spec fn n_status() -> Seq<u8> {
    seq![115u8, 116u8, 97u8, 116u8, 117u8, 115u8]
}

/// The bytes of `status`, for running code.
pub fn k_status() -> (k: [u8; 6])
    ensures
        k@ == n_status(),
{
    let k: [u8; 6] = [115u8, 116u8, 97u8, 116u8, 117u8, 115u8];
    proof {
        assert(k@ =~= n_status());
    }
    k
}

/// The bytes of `data_quality`.
pub open spec fn n_data_quality() -> Seq<u8> {
    seq![100u8, 97u8, 116u8, 97u8, 95u8, 113u8, 117u8, 97u8, 108u8, 105u8, 116u8, 121u8]
}

/// The bytes of `data_quality`, for running code.
pub fn k_data_quality() -> (k: [u8; 12])
    ensures
        k@ == n_data_quality(),
{
    let k: [u8; 12] = [100u8, 97u8, 116u8, 97u8, 95u8, 113u8, 117u8, 97u8, 108u8, 105u8, 116u8, 121u8];
    proof {
        assert(k@ =~= n_data_quality());
    }
    k
}

/// The bytes of `title`.
pub open spec fn n_title() -> Seq<u8> {
    seq![116u8, 105u8, 116u8, 108u8, 101u8]
}

/// The bytes of `title`, for running code.
pub fn k_title() -> (k: [u8; 5])
    ensures
        k@ == n_title(),
{
    let k: [u8; 5] = [116u8, 105u8, 116u8, 108u8, 101u8];
    proof {
        assert(k@ =~= n_title());
    }
    k
}

/// The bytes of `country`.
pub open spec fn n_country() -> Seq<u8> {
    seq![99u8, 111u8, 117u8, 110u8, 116u8, 114u8, 121u8]
}

/// The bytes of `country`, for running code.
pub fn k_country() -> (k: [u8; 7])
    ensures
        k@ == n_country(),
{
    let k: [u8; 7] = [99u8, 111u8, 117u8, 110u8, 116u8, 114u8, 121u8];
    proof {
        assert(k@ =~= n_country());
    }
    k
}

/// The bytes of `released`.
pub open spec fn n_released() -> Seq<u8> {
    seq![114u8, 101u8, 108u8, 101u8, 97u8, 115u8, 101u8, 100u8]
}

/// The bytes of `released`, for running code.
pub fn k_released() -> (k: [u8; 8])
    ensures
        k@ == n_released(),
{
    let k: [u8; 8] = [114u8, 101u8, 108u8, 101u8, 97u8, 115u8, 101u8, 100u8];
    proof {
        assert(k@ =~= n_released());
    }
    k
}

/// The bytes of `artist`.
pub open spec fn n_artist() -> Seq<u8> {
    seq![97u8, 114u8, 116u8, 105u8, 115u8, 116u8]
}

/// The bytes of `artist`, for running code.
pub fn k_artist() -> (k: [u8; 6])
    ensures
        k@ == n_artist(),
{
    let k: [u8; 6] = [97u8, 114u8, 116u8, 105u8, 115u8, 116u8];
    proof {
        assert(k@ =~= n_artist());
    }
    k
}

/// The bytes of `artists`.
pub open spec fn n_artists() -> Seq<u8> {
    seq![97u8, 114u8, 116u8, 105u8, 115u8, 116u8, 115u8]
}

/// The bytes of `artists`, for running code.
pub fn k_artists() -> (k: [u8; 7])
    ensures
        k@ == n_artists(),
{
    let k: [u8; 7] = [97u8, 114u8, 116u8, 105u8, 115u8, 116u8, 115u8];
    proof {
        assert(k@ =~= n_artists());
    }
    k
}

/// The bytes of `label`.
pub open spec fn n_label() -> Seq<u8> {
    seq![108u8, 97u8, 98u8, 101u8, 108u8]
}

/// The bytes of `label`, for running code.
pub fn k_label() -> (k: [u8; 5])
    ensures
        k@ == n_label(),
{
    let k: [u8; 5] = [108u8, 97u8, 98u8, 101u8, 108u8];
    proof {
        assert(k@ =~= n_label());
    }
    k
}

/// The bytes of `labels`.
pub open spec fn n_labels() -> Seq<u8> {
    seq![108u8, 97u8, 98u8, 101u8, 108u8, 115u8]
}

/// The bytes of `labels`, for running code.
pub fn k_labels() -> (k: [u8; 6])
    ensures
        k@ == n_labels(),
{
    let k: [u8; 6] = [108u8, 97u8, 98u8, 101u8, 108u8, 115u8];
    proof {
        assert(k@ =~= n_labels());
    }
    k
}

/// The bytes of `format`.
pub open spec fn n_format() -> Seq<u8> {
    seq![102u8, 111u8, 114u8, 109u8, 97u8, 116u8]
}

/// The bytes of `format`, for running code.
pub fn k_format() -> (k: [u8; 6])
    ensures
        k@ == n_format(),
{
    let k: [u8; 6] = [102u8, 111u8, 114u8, 109u8, 97u8, 116u8];
    proof {
        assert(k@ =~= n_format());
    }
    k
}

/// The bytes of `formats`.
pub open spec fn n_formats() -> Seq<u8> {
    seq![102u8, 111u8, 114u8, 109u8, 97u8, 116u8, 115u8]
}

/// The bytes of `formats`, for running code.
pub fn k_formats() -> (k: [u8; 7])
    ensures
        k@ == n_formats(),
{
    let k: [u8; 7] = [102u8, 111u8, 114u8, 109u8, 97u8, 116u8, 115u8];
    proof {
        assert(k@ =~= n_formats());
    }
    k
}

/// The bytes of `genre`.
pub open spec fn n_genre() -> Seq<u8> {
    seq![103u8, 101u8, 110u8, 114u8, 101u8]
}

/// The bytes of `genre`, for running code.
pub fn k_genre() -> (k: [u8; 5])
    ensures
        k@ == n_genre(),
{
    let k: [u8; 5] = [103u8, 101u8, 110u8, 114u8, 101u8];
    proof {
        assert(k@ =~= n_genre());
    }
    k
}

/// The bytes of `genres`.
pub open spec fn n_genres() -> Seq<u8> {
    seq![103u8, 101u8, 110u8, 114u8, 101u8, 115u8]
}

/// The bytes of `genres`, for running code.
pub fn k_genres() -> (k: [u8; 6])
    ensures
        k@ == n_genres(),
{
    let k: [u8; 6] = [103u8, 101u8, 110u8, 114u8, 101u8, 115u8];
    proof {
        assert(k@ =~= n_genres());
    }
    k
}

/// The bytes of `style`.
pub open spec fn n_style() -> Seq<u8> {
    seq![115u8, 116u8, 121u8, 108u8, 101u8]
}

/// The bytes of `style`, for running code.
pub fn k_style() -> (k: [u8; 5])
    ensures
        k@ == n_style(),
{
    let k: [u8; 5] = [115u8, 116u8, 121u8, 108u8, 101u8];
    proof {
        assert(k@ =~= n_style());
    }
    k
}

/// The bytes of `styles`.
pub open spec fn n_styles() -> Seq<u8> {
    seq![115u8, 116u8, 121u8, 108u8, 101u8, 115u8]
}

/// The bytes of `styles`, for running code.
pub fn k_styles() -> (k: [u8; 6])
    ensures
        k@ == n_styles(),
{
    let k: [u8; 6] = [115u8, 116u8, 121u8, 108u8, 101u8, 115u8];
    proof {
        assert(k@ =~= n_styles());
    }
    k
}

/// The bytes of `track`.
pub open spec fn n_track() -> Seq<u8> {
    seq![116u8, 114u8, 97u8, 99u8, 107u8]
}

/// The bytes of `track`, for running code.
pub fn k_track() -> (k: [u8; 5])
    ensures
        k@ == n_track(),
{
    let k: [u8; 5] = [116u8, 114u8, 97u8, 99u8, 107u8];
    proof {
        assert(k@ =~= n_track());
    }
    k
}

/// The bytes of `tracklist`.
pub open spec fn n_tracklist() -> Seq<u8> {
    seq![116u8, 114u8, 97u8, 99u8, 107u8, 108u8, 105u8, 115u8, 116u8]
}

/// The bytes of `tracklist`, for running code.
pub fn k_tracklist() -> (k: [u8; 9])
    ensures
        k@ == n_tracklist(),
{
    let k: [u8; 9] = [116u8, 114u8, 97u8, 99u8, 107u8, 108u8, 105u8, 115u8, 116u8];
    proof {
        assert(k@ =~= n_tracklist());
    }
    k
}

/// The bytes of `video`.
pub open spec fn n_video() -> Seq<u8> {
    seq![118u8, 105u8, 100u8, 101u8, 111u8]
}

/// The bytes of `video`, for running code.
pub fn k_video() -> (k: [u8; 5])
    ensures
        k@ == n_video(),
{
    let k: [u8; 5] = [118u8, 105u8, 100u8, 101u8, 111u8];
    proof {
        assert(k@ =~= n_video());
    }
    k
}

/// The bytes of `videos`.
pub open spec fn n_videos() -> Seq<u8> {
    seq![118u8, 105u8, 100u8, 101u8, 111u8, 115u8]
}

/// The bytes of `videos`, for running code.
pub fn k_videos() -> (k: [u8; 6])
    ensures
        k@ == n_videos(),
{
    let k: [u8; 6] = [118u8, 105u8, 100u8, 101u8, 111u8, 115u8];
    proof {
        assert(k@ =~= n_videos());
    }
    k
}

} // verus!

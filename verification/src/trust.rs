//! The trust-points scale.
//!
//! Raw tables state trust thresholds in accumulated trust points; the model
//! speaks in the 0 to 200 percent scale. The mapping is a fixed, bucketed
//! lookup: below 10070 points the bucket bounds are irregular and written
//! out; from there to 25570 the buckets are 155 points wide; 25570 points
//! and above score the full 200.

use vstd::prelude::*;

verus! {

/// The percent value (0 to 200) that a raw trust-points total scores.
pub open spec fn spec_trust_points_to_percent(points: u32) -> u32 {
    if points < 8 {
        0
    } else if points < 16 {
        1
    } else if points < 28 {
        2
    } else if points < 40 {
        3
    } else if points < 56 {
        4
    } else if points < 72 {
        5
    } else if points < 92 {
        6
    } else if points < 112 {
        7
    } else if points < 137 {
        8
    } else if points < 162 {
        9
    } else if points < 192 {
        10
    } else if points < 222 {
        11
    } else if points < 255 {
        12
    } else if points < 288 {
        13
    } else if points < 325 {
        14
    } else if points < 362 {
        15
    } else if points < 404 {
        16
    } else if points < 446 {
        17
    } else if points < 491 {
        18
    } else if points < 536 {
        19
    } else if points < 586 {
        20
    } else if points < 636 {
        21
    } else if points < 691 {
        22
    } else if points < 746 {
        23
    } else if points < 804 {
        24
    } else if points < 862 {
        25
    } else if points < 924 {
        26
    } else if points < 986 {
        27
    } else if points < 1052 {
        28
    } else if points < 1118 {
        29
    } else if points < 1184 {
        30
    } else if points < 1250 {
        31
    } else if points < 1316 {
        32
    } else if points < 1382 {
        33
    } else if points < 1457 {
        34
    } else if points < 1532 {
        35
    } else if points < 1607 {
        36
    } else if points < 1682 {
        37
    } else if points < 1757 {
        38
    } else if points < 1832 {
        39
    } else if points < 1917 {
        40
    } else if points < 2002 {
        41
    } else if points < 2087 {
        42
    } else if points < 2172 {
        43
    } else if points < 2257 {
        44
    } else if points < 2352 {
        45
    } else if points < 2447 {
        46
    } else if points < 2542 {
        47
    } else if points < 2637 {
        48
    } else if points < 2732 {
        49
    } else if points < 2840 {
        50
    } else if points < 2960 {
        51
    } else if points < 3080 {
        52
    } else if points < 3200 {
        53
    } else if points < 3320 {
        54
    } else if points < 3450 {
        55
    } else if points < 3580 {
        56
    } else if points < 3710 {
        57
    } else if points < 3840 {
        58
    } else if points < 3970 {
        59
    } else if points < 4110 {
        60
    } else if points < 4250 {
        61
    } else if points < 4390 {
        62
    } else if points < 4530 {
        63
    } else if points < 4670 {
        64
    } else if points < 4820 {
        65
    } else if points < 4970 {
        66
    } else if points < 5120 {
        67
    } else if points < 5270 {
        68
    } else if points < 5420 {
        69
    } else if points < 5575 {
        70
    } else if points < 5730 {
        71
    } else if points < 5885 {
        72
    } else if points < 6040 {
        73
    } else if points < 6195 {
        74
    } else if points < 6350 {
        75
    } else if points < 6505 {
        76
    } else if points < 6660 {
        77
    } else if points < 6815 {
        78
    } else if points < 6970 {
        79
    } else if points < 7125 {
        80
    } else if points < 7280 {
        81
    } else if points < 7435 {
        82
    } else if points < 7590 {
        83
    } else if points < 7745 {
        84
    } else if points < 7900 {
        85
    } else if points < 8055 {
        86
    } else if points < 8210 {
        87
    } else if points < 8365 {
        88
    } else if points < 8520 {
        89
    } else if points < 8675 {
        90
    } else if points < 8830 {
        91
    } else if points < 8985 {
        92
    } else if points < 9140 {
        93
    } else if points < 9295 {
        94
    } else if points < 9450 {
        95
    } else if points < 9605 {
        96
    } else if points < 9760 {
        97
    } else if points < 9915 {
        98
    } else if points < 10070 {
        99
    } else if points < 25570 {
        ((points - 10070) / 155 + 100) as u32
    } else {
        200
    }
}

/// Maps a raw trust-points total to the 0 to 200 percent scale.
#[verifier::rlimit(60)]
pub fn trust_points_to_percent(points: u32) -> (r: u32)
    ensures
        r == spec_trust_points_to_percent(points),
{
    if points < 8 {
        0
    } else if points < 16 {
        1
    } else if points < 28 {
        2
    } else if points < 40 {
        3
    } else if points < 56 {
        4
    } else if points < 72 {
        5
    } else if points < 92 {
        6
    } else if points < 112 {
        7
    } else if points < 137 {
        8
    } else if points < 162 {
        9
    } else if points < 192 {
        10
    } else if points < 222 {
        11
    } else if points < 255 {
        12
    } else if points < 288 {
        13
    } else if points < 325 {
        14
    } else if points < 362 {
        15
    } else if points < 404 {
        16
    } else if points < 446 {
        17
    } else if points < 491 {
        18
    } else if points < 536 {
        19
    } else if points < 586 {
        20
    } else if points < 636 {
        21
    } else if points < 691 {
        22
    } else if points < 746 {
        23
    } else if points < 804 {
        24
    } else if points < 862 {
        25
    } else if points < 924 {
        26
    } else if points < 986 {
        27
    } else if points < 1052 {
        28
    } else if points < 1118 {
        29
    } else if points < 1184 {
        30
    } else if points < 1250 {
        31
    } else if points < 1316 {
        32
    } else if points < 1382 {
        33
    } else if points < 1457 {
        34
    } else if points < 1532 {
        35
    } else if points < 1607 {
        36
    } else if points < 1682 {
        37
    } else if points < 1757 {
        38
    } else if points < 1832 {
        39
    } else if points < 1917 {
        40
    } else if points < 2002 {
        41
    } else if points < 2087 {
        42
    } else if points < 2172 {
        43
    } else if points < 2257 {
        44
    } else if points < 2352 {
        45
    } else if points < 2447 {
        46
    } else if points < 2542 {
        47
    } else if points < 2637 {
        48
    } else if points < 2732 {
        49
    } else if points < 2840 {
        50
    } else if points < 2960 {
        51
    } else if points < 3080 {
        52
    } else if points < 3200 {
        53
    } else if points < 3320 {
        54
    } else if points < 3450 {
        55
    } else if points < 3580 {
        56
    } else if points < 3710 {
        57
    } else if points < 3840 {
        58
    } else if points < 3970 {
        59
    } else if points < 4110 {
        60
    } else if points < 4250 {
        61
    } else if points < 4390 {
        62
    } else if points < 4530 {
        63
    } else if points < 4670 {
        64
    } else if points < 4820 {
        65
    } else if points < 4970 {
        66
    } else if points < 5120 {
        67
    } else if points < 5270 {
        68
    } else if points < 5420 {
        69
    } else if points < 5575 {
        70
    } else if points < 5730 {
        71
    } else if points < 5885 {
        72
    } else if points < 6040 {
        73
    } else if points < 6195 {
        74
    } else if points < 6350 {
        75
    } else if points < 6505 {
        76
    } else if points < 6660 {
        77
    } else if points < 6815 {
        78
    } else if points < 6970 {
        79
    } else if points < 7125 {
        80
    } else if points < 7280 {
        81
    } else if points < 7435 {
        82
    } else if points < 7590 {
        83
    } else if points < 7745 {
        84
    } else if points < 7900 {
        85
    } else if points < 8055 {
        86
    } else if points < 8210 {
        87
    } else if points < 8365 {
        88
    } else if points < 8520 {
        89
    } else if points < 8675 {
        90
    } else if points < 8830 {
        91
    } else if points < 8985 {
        92
    } else if points < 9140 {
        93
    } else if points < 9295 {
        94
    } else if points < 9450 {
        95
    } else if points < 9605 {
        96
    } else if points < 9760 {
        97
    } else if points < 9915 {
        98
    } else if points < 10070 {
        99
    } else if points < 25570 {
        100 + (points - 10070) / 155
    } else {
        200
    }
}

} // verus!

use vstd::prelude::*;

verus! {

/// The pitch-to-frequency table of the wire format: the frequency of MIDI
/// key `note` in hertz, truncated to a whole number.  Key 69 (A4) maps to
/// 440; each octave doubles or halves the value; keys outside `0..128` map
/// to 0.  The exact truncated values are part of the wire contract.
pub open spec fn spec_note_to_frequency(note: u8) -> u16 {
    if note == 0 {
        8
    } else if note == 1 {
        8
    } else if note == 2 {
        9
    } else if note == 3 {
        9
    } else if note == 4 {
        10
    } else if note == 5 {
        10
    } else if note == 6 {
        11
    } else if note == 7 {
        12
    } else if note == 8 {
        12
    } else if note == 9 {
        13
    } else if note == 10 {
        14
    } else if note == 11 {
        15
    } else if note == 12 {
        16
    } else if note == 13 {
        17
    } else if note == 14 {
        18
    } else if note == 15 {
        19
    } else if note == 16 {
        20
    } else if note == 17 {
        21
    } else if note == 18 {
        23
    } else if note == 19 {
        24
    } else if note == 20 {
        25
    } else if note == 21 {
        27
    } else if note == 22 {
        29
    } else if note == 23 {
        30
    } else if note == 24 {
        32
    } else if note == 25 {
        34
    } else if note == 26 {
        36
    } else if note == 27 {
        38
    } else if note == 28 {
        41
    } else if note == 29 {
        43
    } else if note == 30 {
        46
    } else if note == 31 {
        48
    } else if note == 32 {
        51
    } else if note == 33 {
        55
    } else if note == 34 {
        58
    } else if note == 35 {
        61
    } else if note == 36 {
        65
    } else if note == 37 {
        69
    } else if note == 38 {
        73
    } else if note == 39 {
        77
    } else if note == 40 {
        82
    } else if note == 41 {
        87
    } else if note == 42 {
        92
    } else if note == 43 {
        97
    } else if note == 44 {
        103
    } else if note == 45 {
        110
    } else if note == 46 {
        116
    } else if note == 47 {
        123
    } else if note == 48 {
        130
    } else if note == 49 {
        138
    } else if note == 50 {
        146
    } else if note == 51 {
        155
    } else if note == 52 {
        164
    } else if note == 53 {
        174
    } else if note == 54 {
        184
    } else if note == 55 {
        195
    } else if note == 56 {
        207
    } else if note == 57 {
        220
    } else if note == 58 {
        233
    } else if note == 59 {
        246
    } else if note == 60 {
        261
    } else if note == 61 {
        277
    } else if note == 62 {
        293
    } else if note == 63 {
        311
    } else if note == 64 {
        329
    } else if note == 65 {
        349
    } else if note == 66 {
        369
    } else if note == 67 {
        391
    } else if note == 68 {
        415
    } else if note == 69 {
        440
    } else if note == 70 {
        466
    } else if note == 71 {
        493
    } else if note == 72 {
        523
    } else if note == 73 {
        554
    } else if note == 74 {
        587
    } else if note == 75 {
        622
    } else if note == 76 {
        659
    } else if note == 77 {
        698
    } else if note == 78 {
        739
    } else if note == 79 {
        783
    } else if note == 80 {
        830
    } else if note == 81 {
        880
    } else if note == 82 {
        932
    } else if note == 83 {
        987
    } else if note == 84 {
        1046
    } else if note == 85 {
        1108
    } else if note == 86 {
        1174
    } else if note == 87 {
        1244
    } else if note == 88 {
        1318
    } else if note == 89 {
        1396
    } else if note == 90 {
        1479
    } else if note == 91 {
        1567
    } else if note == 92 {
        1661
    } else if note == 93 {
        1760
    } else if note == 94 {
        1864
    } else if note == 95 {
        1975
    } else if note == 96 {
        2093
    } else if note == 97 {
        2217
    } else if note == 98 {
        2349
    } else if note == 99 {
        2489
    } else if note == 100 {
        2637
    } else if note == 101 {
        2793
    } else if note == 102 {
        2959
    } else if note == 103 {
        3135
    } else if note == 104 {
        3322
    } else if note == 105 {
        3520
    } else if note == 106 {
        3729
    } else if note == 107 {
        3951
    } else if note == 108 {
        4186
    } else if note == 109 {
        4434
    } else if note == 110 {
        4698
    } else if note == 111 {
        4978
    } else if note == 112 {
        5274
    } else if note == 113 {
        5587
    } else if note == 114 {
        5919
    } else if note == 115 {
        6271
    } else if note == 116 {
        6644
    } else if note == 117 {
        7040
    } else if note == 118 {
        7458
    } else if note == 119 {
        7902
    } else if note == 120 {
        8372
    } else if note == 121 {
        8869
    } else if note == 122 {
        9397
    } else if note == 123 {
        9956
    } else if note == 124 {
        10548
    } else if note == 125 {
        11175
    } else if note == 126 {
        11839
    } else if note == 127 {
        12543
    } else {
        0
    }
}

/// Frequency in hertz of a MIDI key, truncated to a whole number.
pub fn note_to_frequency(note: u8) -> (r: u16)
    ensures
        r == spec_note_to_frequency(note),
{
    if note == 0 {
        8
    } else if note == 1 {
        8
    } else if note == 2 {
        9
    } else if note == 3 {
        9
    } else if note == 4 {
        10
    } else if note == 5 {
        10
    } else if note == 6 {
        11
    } else if note == 7 {
        12
    } else if note == 8 {
        12
    } else if note == 9 {
        13
    } else if note == 10 {
        14
    } else if note == 11 {
        15
    } else if note == 12 {
        16
    } else if note == 13 {
        17
    } else if note == 14 {
        18
    } else if note == 15 {
        19
    } else if note == 16 {
        20
    } else if note == 17 {
        21
    } else if note == 18 {
        23
    } else if note == 19 {
        24
    } else if note == 20 {
        25
    } else if note == 21 {
        27
    } else if note == 22 {
        29
    } else if note == 23 {
        30
    } else if note == 24 {
        32
    } else if note == 25 {
        34
    } else if note == 26 {
        36
    } else if note == 27 {
        38
    } else if note == 28 {
        41
    } else if note == 29 {
        43
    } else if note == 30 {
        46
    } else if note == 31 {
        48
    } else if note == 32 {
        51
    } else if note == 33 {
        55
    } else if note == 34 {
        58
    } else if note == 35 {
        61
    } else if note == 36 {
        65
    } else if note == 37 {
        69
    } else if note == 38 {
        73
    } else if note == 39 {
        77
    } else if note == 40 {
        82
    } else if note == 41 {
        87
    } else if note == 42 {
        92
    } else if note == 43 {
        97
    } else if note == 44 {
        103
    } else if note == 45 {
        110
    } else if note == 46 {
        116
    } else if note == 47 {
        123
    } else if note == 48 {
        130
    } else if note == 49 {
        138
    } else if note == 50 {
        146
    } else if note == 51 {
        155
    } else if note == 52 {
        164
    } else if note == 53 {
        174
    } else if note == 54 {
        184
    } else if note == 55 {
        195
    } else if note == 56 {
        207
    } else if note == 57 {
        220
    } else if note == 58 {
        233
    } else if note == 59 {
        246
    } else if note == 60 {
        261
    } else if note == 61 {
        277
    } else if note == 62 {
        293
    } else if note == 63 {
        311
    } else if note == 64 {
        329
    } else if note == 65 {
        349
    } else if note == 66 {
        369
    } else if note == 67 {
        391
    } else if note == 68 {
        415
    } else if note == 69 {
        440
    } else if note == 70 {
        466
    } else if note == 71 {
        493
    } else if note == 72 {
        523
    } else if note == 73 {
        554
    } else if note == 74 {
        587
    } else if note == 75 {
        622
    } else if note == 76 {
        659
    } else if note == 77 {
        698
    } else if note == 78 {
        739
    } else if note == 79 {
        783
    } else if note == 80 {
        830
    } else if note == 81 {
        880
    } else if note == 82 {
        932
    } else if note == 83 {
        987
    } else if note == 84 {
        1046
    } else if note == 85 {
        1108
    } else if note == 86 {
        1174
    } else if note == 87 {
        1244
    } else if note == 88 {
        1318
    } else if note == 89 {
        1396
    } else if note == 90 {
        1479
    } else if note == 91 {
        1567
    } else if note == 92 {
        1661
    } else if note == 93 {
        1760
    } else if note == 94 {
        1864
    } else if note == 95 {
        1975
    } else if note == 96 {
        2093
    } else if note == 97 {
        2217
    } else if note == 98 {
        2349
    } else if note == 99 {
        2489
    } else if note == 100 {
        2637
    } else if note == 101 {
        2793
    } else if note == 102 {
        2959
    } else if note == 103 {
        3135
    } else if note == 104 {
        3322
    } else if note == 105 {
        3520
    } else if note == 106 {
        3729
    } else if note == 107 {
        3951
    } else if note == 108 {
        4186
    } else if note == 109 {
        4434
    } else if note == 110 {
        4698
    } else if note == 111 {
        4978
    } else if note == 112 {
        5274
    } else if note == 113 {
        5587
    } else if note == 114 {
        5919
    } else if note == 115 {
        6271
    } else if note == 116 {
        6644
    } else if note == 117 {
        7040
    } else if note == 118 {
        7458
    } else if note == 119 {
        7902
    } else if note == 120 {
        8372
    } else if note == 121 {
        8869
    } else if note == 122 {
        9397
    } else if note == 123 {
        9956
    } else if note == 124 {
        10548
    } else if note == 125 {
        11175
    } else if note == 126 {
        11839
    } else if note == 127 {
        12543
    } else {
        0
    }
}

}

use nural::digits::{get_bin_digits, DIGIT_BUFFER_SIZE, DIGIT_COUNT, DIGIT_SIZE};

fn blank_data() -> Vec<Vec<u8>> {
    vec![vec![0u8; DIGIT_BUFFER_SIZE]; DIGIT_COUNT]
}

#[test]
fn blank_images_pack_to_zero_rows() {
    let digits = get_bin_digits(&blank_data());
    assert_eq!(digits.len(), DIGIT_COUNT);
    for d in &digits {
        assert_eq!(d.len(), DIGIT_SIZE);
        for &row in d {
            assert_eq!(row, 0);
        }
    }
}

#[test]
fn a_lit_pixel_sets_its_shifted_bit() {
    let mut data = blank_data();
    // digit 3, row 2, column 0: the first column ends up at the top bit of
    // the 28-wide mask, shifted once more by the final step
    data[3][2 * DIGIT_SIZE] = 255;
    // digit 3, row 2, column 27: the last column is shifted exactly once
    data[3][2 * DIGIT_SIZE + 27] = 1;
    // digit 5, row 0, columns 0 and 1
    data[5][0] = 10;
    data[5][1] = 20;
    let digits = get_bin_digits(&data);
    assert_eq!(digits[3][2], (1 << 28) | 2);
    assert_eq!(digits[5][0], (1 << 28) | (1 << 27));
    assert_eq!(digits[3][0], 0);
    assert_eq!(digits[0][2], 0);
}

#[test]
fn any_nonzero_intensity_counts_as_lit() {
    let mut faint = blank_data();
    faint[0][7 * DIGIT_SIZE + 4] = 1;
    let mut bright = blank_data();
    bright[0][7 * DIGIT_SIZE + 4] = 255;
    assert_eq!(get_bin_digits(&faint)[0][7], get_bin_digits(&bright)[0][7]);
    assert_ne!(get_bin_digits(&faint)[0][7], 0);
}

use ipo_lookup::error::Result;
use ipo_lookup::ipo_map_u8;
use ipo_lookup::rs_ipo_cur;
use ipo_lookup::rs_ipo_cur_u8;
use ipo_lookup::DpSearchResult;

#[test]
fn test_ipo_cur() -> Result<()> {
    let y_axis = [10, 20, 30, 40];

    let rs_dp_res = DpSearchResult { index: 1, ratio: 0x8000 };
    let rs_ret_val = rs_ipo_cur_u8(&rs_dp_res, &y_axis)?;
    assert_eq!(rs_ret_val, 25);

    let y_axis = [0, 100];

    let rs_dp_res = DpSearchResult { index: 0, ratio: 0x4000 };
    let rs_ret_val = rs_ipo_cur_u8(&rs_dp_res, &y_axis)?;
    assert_eq!(rs_ret_val, 25);

    let rs_dp_res = DpSearchResult { index: 0, ratio: 0x8000 };
    let rs_ret_val = rs_ipo_cur_u8(&rs_dp_res, &y_axis)?;
    assert_eq!(rs_ret_val, 50);

    let rs_dp_res = DpSearchResult { index: 0, ratio: 0xC000 };
    let rs_ret_val = rs_ipo_cur_u8(&rs_dp_res, &y_axis)?;
    assert_eq!(rs_ret_val, 75);

    Ok(())
}

#[test]
fn ratio_zero_reads_the_breakpoint_itself() {
    let y_axis: [u8; 4] = [10, 200, 30, 40];

    for index in 0..y_axis.len() {
        let place = DpSearchResult { index, ratio: 0 };
        assert_eq!(rs_ipo_cur_u8(&place, &y_axis).unwrap(), y_axis[index]);
        assert_eq!(rs_ipo_cur(&place, &y_axis).unwrap(), y_axis[index]);
    }
}

#[test]
fn a_falling_segment_is_read_downwards() {
    let y_axis: [u8; 2] = [100, 0];

    let place = DpSearchResult { index: 0, ratio: 0x4000 };
    assert_eq!(rs_ipo_cur_u8(&place, &y_axis).unwrap(), 75);
    let place = DpSearchResult { index: 0, ratio: 0x8000 };
    assert_eq!(rs_ipo_cur_u8(&place, &y_axis).unwrap(), 50);
    let place = DpSearchResult { index: 0, ratio: 0xC000 };
    assert_eq!(rs_ipo_cur_u8(&place, &y_axis).unwrap(), 25);
}

#[test]
fn a_reversed_axis_mirrors_the_rising_one() {
    let rising: [u8; 2] = [0, 100];
    let falling: [u8; 2] = [100, 0];
    let half = DpSearchResult { index: 0, ratio: 0x8000 };

    assert_eq!(rs_ipo_cur_u8(&half, &rising).unwrap(), 50);
    assert_eq!(rs_ipo_cur_u8(&half, &falling).unwrap(), 50);

    let y_axis: [u8; 5] = [7, 90, 90, 13, 255];
    let reversed: [u8; 5] = [255, 13, 90, 90, 7];
    for index in 0..y_axis.len() - 1 {
        for ratio in [0u16, 1, 0x4000, 0x8000, 0xC000, 0xFFFF] {
            let place = DpSearchResult { index, ratio };
            let mirrored = DpSearchResult { index: y_axis.len() - 2 - index, ratio };
            let here = u32::from(rs_ipo_cur_u8(&place, &y_axis).unwrap());
            let there = u32::from(rs_ipo_cur_u8(&mirrored, &reversed).unwrap());
            assert_eq!(here + there, u32::from(y_axis[index]) + u32::from(y_axis[index + 1]));
        }
    }
}

#[test]
fn the_offset_is_rounded_down() {
    let full = DpSearchResult { index: 0, ratio: 0xFFFF };
    let least = DpSearchResult { index: 0, ratio: 1 };

    assert_eq!(rs_ipo_cur_u8(&full, &[0, 255]).unwrap(), 254);
    assert_eq!(rs_ipo_cur_u8(&full, &[255, 0]).unwrap(), 1);
    assert_eq!(rs_ipo_cur_u8(&least, &[0, 255]).unwrap(), 0);
    assert_eq!(rs_ipo_cur_u8(&least, &[255, 0]).unwrap(), 255);
}

#[test]
fn sixteen_bit_axes_are_read_alike() {
    let full = DpSearchResult { index: 0, ratio: 0xFFFF };
    let half = DpSearchResult { index: 0, ratio: 0x8000 };
    let quarter = DpSearchResult { index: 1, ratio: 0x4000 };

    assert_eq!(rs_ipo_cur(&full, &[0u16, u16::MAX]).unwrap(), 65534);
    assert_eq!(rs_ipo_cur(&full, &[u16::MAX, 0u16]).unwrap(), 1);
    assert_eq!(rs_ipo_cur(&half, &[1000u16, 3000]).unwrap(), 2000);
    assert_eq!(rs_ipo_cur(&quarter, &[5u16, 1000, 200]).unwrap(), 800);
}

#[test]
fn both_readers_agree_on_eight_bits() {
    let y_axis: [u8; 5] = [0, 255, 17, 17, 200];

    for index in 0..y_axis.len() - 1 {
        for ratio in (0u16..=u16::MAX).step_by(251) {
            let place = DpSearchResult { index, ratio };
            assert_eq!(
                rs_ipo_cur_u8(&place, &y_axis).unwrap(),
                rs_ipo_cur(&place, &y_axis).unwrap()
            );
        }
    }
}

#[test]
fn reading_an_axis_at_its_own_places_gives_the_value_back() {
    let axis: [u8; 5] = [3, 10, 12, 200, 201];
    for val in 3u8..=201 {
        let place = DpSearchResult::search_u8(val, &axis).unwrap();
        let back = rs_ipo_cur_u8(&place, &axis).unwrap();
        assert!(back == val || back + 1 == val);
    }

    let axis: [u16; 4] = [0, 1, 30_000, u16::MAX];
    for val in 0u16..=u16::MAX {
        let place = DpSearchResult::search(val, &axis).unwrap();
        let back = rs_ipo_cur(&place, &axis).unwrap();
        assert!(back == val || back + 1 == val);
    }
}

#[test]
fn a_value_is_carried_from_one_axis_to_another() {
    let x_axis: [u16; 4] = [100, 200, 400, 1000];
    let y_axis: [u16; 4] = [0, 10, 20, 40];

    let place = DpSearchResult::search(300u16, &x_axis).unwrap();
    assert_eq!((place.index, place.ratio), (1, 0x8000));
    assert_eq!(rs_ipo_cur(&place, &y_axis).unwrap(), 15);

    let x_axis: [u8; 3] = [3, 10, 200];
    let falling: [u8; 3] = [100, 50, 0];
    let place = DpSearchResult::search_u8(150, &x_axis).unwrap();
    assert_eq!(rs_ipo_cur_u8(&place, &x_axis).unwrap(), 149);
    assert_eq!(rs_ipo_cur_u8(&place, &falling).unwrap(), 14);
}

#[test]
fn values_outside_the_axis_read_the_nearest_end() {
    let x_axis: [u8; 3] = [10, 20, 30];
    let y_axis: [u8; 3] = [7, 99, 42];

    let low = DpSearchResult::search_u8(0, &x_axis).unwrap();
    assert_eq!(rs_ipo_cur_u8(&low, &y_axis).unwrap(), 7);
    let high = DpSearchResult::search_u8(255, &x_axis).unwrap();
    assert_eq!(rs_ipo_cur_u8(&high, &y_axis).unwrap(), 42);
}

#[test]
fn the_map_entry_point_yields_zero() {
    assert_eq!(ipo_map_u8(), Ok(0));
}

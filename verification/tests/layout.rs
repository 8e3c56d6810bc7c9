use tmux_layout::tmux::layout::{Layout, PaneGeom, Size};

fn geom(width: u32, height: u32, x_offset: u32, y_offset: u32) -> PaneGeom {
    PaneGeom { size: Size { width, height }, x_offset, y_offset }
}

#[test]
fn sample1() {
    let sample1 = "4264,401x112,0,0{200x112,0,0[200x56,0,0,546,200x55,0,57,798],200x112,201,0[200x56,201,0,795,200x55,201,57{100x55,201,57,796,99x55,302,57[99x27,302,57,797,99x27,302,85,799]}]}";
    let layout = Layout::parse(sample1).unwrap();

    assert_eq!(
        layout,
        Layout::H(
            PaneGeom { size: Size { width: 401, height: 112 }, x_offset: 0, y_offset: 0 },
            vec![
                Layout::V(
                    PaneGeom { size: Size { width: 200, height: 112 }, x_offset: 0, y_offset: 0 },
                    vec![
                        Layout::Pane(PaneGeom {
                            size: Size { width: 200, height: 56 },
                            x_offset: 0,
                            y_offset: 0,
                        }),
                        Layout::Pane(PaneGeom {
                            size: Size { width: 200, height: 55 },
                            x_offset: 0,
                            y_offset: 57,
                        }),
                    ],
                ),
                Layout::V(
                    PaneGeom { size: Size { width: 200, height: 112 }, x_offset: 201, y_offset: 0 },
                    vec![
                        Layout::Pane(PaneGeom {
                            size: Size { width: 200, height: 56 },
                            x_offset: 201,
                            y_offset: 0,
                        }),
                        Layout::H(
                            PaneGeom {
                                size: Size { width: 200, height: 55 },
                                x_offset: 201,
                                y_offset: 57,
                            },
                            vec![
                                Layout::Pane(PaneGeom {
                                    size: Size { width: 100, height: 55 },
                                    x_offset: 201,
                                    y_offset: 57,
                                }),
                                Layout::V(
                                    PaneGeom {
                                        size: Size { width: 99, height: 55 },
                                        x_offset: 302,
                                        y_offset: 57,
                                    },
                                    vec![
                                        Layout::Pane(PaneGeom {
                                            size: Size { width: 99, height: 27 },
                                            x_offset: 302,
                                            y_offset: 57,
                                        }),
                                        Layout::Pane(PaneGeom {
                                            size: Size { width: 99, height: 27 },
                                            x_offset: 302,
                                            y_offset: 85,
                                        }),
                                    ],
                                ),
                            ],
                        ),
                    ],
                ),
            ],
        )
    );
}

#[test]
fn descriptor_with_two_columns() {
    let layout = Layout::parse("abcd,80x24,0,0{40x24,0,0,1,39x24,41,0,2}").unwrap();
    assert_eq!(
        layout,
        Layout::H(
            geom(80, 24, 0, 0),
            vec![Layout::Pane(geom(40, 24, 0, 0)), Layout::Pane(geom(39, 24, 41, 0))]
        )
    );
}

#[test]
fn parse_accepts_vertical_groups_and_leading_zeros() {
    let layout = Layout::parse("0,010x4,0,0[10x2,0,0,7,10x1,0,3,08]").unwrap();
    assert_eq!(
        layout,
        Layout::V(
            geom(10, 4, 0, 0),
            vec![Layout::Pane(geom(10, 2, 0, 0)), Layout::Pane(geom(10, 1, 0, 3))]
        )
    );
}

#[test]
fn parse_single_pane() {
    assert_eq!(Layout::parse("b25d,80x24,0,0,0").unwrap(), Layout::Pane(geom(80, 24, 0, 0)));
    assert_eq!(Layout::parse(",1x1,0,0,0").unwrap(), Layout::Pane(geom(1, 1, 0, 0)));
}

#[test]
fn parse_takes_the_largest_numbers() {
    assert_eq!(
        Layout::parse("x,4294967295x0,0,4294967295,99999999999999999999").unwrap(),
        Layout::Pane(geom(4294967295, 0, 0, 4294967295))
    );
}

#[test]
fn parse_rejects_numbers_that_do_not_fit() {
    assert!(Layout::parse("x,4294967296x24,0,0,0").is_err());
    assert!(Layout::parse("x,80x24,0,99999999999,0").is_err());
}

#[test]
fn parse_rejects_text_after_the_layout() {
    assert!(Layout::parse("abcd,80x24,0,0,0 ").is_err());
    assert!(Layout::parse("abcd,80x24,0,0{40x24,0,0,1,39x24,41,0,2}}").is_err());
    assert!(Layout::parse("abcd,80x24,0,0,0,").is_err());
}

#[test]
fn parse_rejects_what_is_no_layout() {
    assert!(Layout::parse("").is_err());
    assert!(Layout::parse("abcd").is_err());
    assert!(Layout::parse("abcd,").is_err());
    assert!(Layout::parse("abcd,80x24,0,0").is_err());
    assert!(Layout::parse("abcd,80x24,0,0,").is_err());
    assert!(Layout::parse("abcd,80,0,0,1").is_err());
    assert!(Layout::parse("abcd,80x24,0,0{40x24,0,0,1,39x24,41,0,2").is_err());
    assert!(Layout::parse("abcd,80x24,0,0{40x24,0,0,1,39x24,41,0,2]").is_err());
    assert!(Layout::parse("abcd,80x24,0,0{}").is_err());
    assert!(Layout::parse("abcd,+80x24,0,0,1").is_err());
}

#[test]
fn parse_rejects_a_group_of_one() {
    assert!(Layout::parse("abcd,80x24,0,0{80x24,0,0,1}").is_err());
    assert!(Layout::parse("abcd,80x24,0,0[80x24,0,0,1]").is_err());
}

#[test]
fn parse_error_message() {
    let error = Layout::parse("abcd").unwrap_err();
    assert!(error.message().starts_with("layout parse error: "));
}

#[test]
fn geometry_accessors() {
    let layout = Layout::parse("abcd,80x24,3,4{40x24,3,4,1,39x24,44,4,2}").unwrap();
    assert_eq!(layout.geom(), &geom(80, 24, 3, 4));
    assert_eq!(layout.width(), 80);
    assert_eq!(layout.height(), 24);
    assert_eq!(geom(80, 24, 3, 4).width(), 80);
    assert_eq!(geom(80, 24, 3, 4).height(), 24);
    assert_eq!(Size::new(7, 9), Size { width: 7, height: 9 });
    assert_eq!(layout.clone(), layout);
}

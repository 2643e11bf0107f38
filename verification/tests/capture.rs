use gazo::capture::OutputCapture;
use gazo::capture::PixelFormat;
use gazo::capture::Transform;
use gazo::rectangle::Position;
use gazo::rectangle::Size;

// test the validity of the transformations
#[test]
fn test_transformation_odd_row_column_square() {
    // the test case input has the opposite transformation applied to this data, so
    // this should be the result when the transformation is applied
    let expected_result = vec![
        vec![[0, 0, 0, 255], [1, 1, 1, 255], [2, 2, 2, 255], [3, 3, 3, 255], [4, 4, 4, 255]],
        vec![[5, 5, 5, 255], [6, 6, 6, 255], [7, 7, 7, 255], [8, 8, 8, 255], [9, 9, 9, 255]],
        vec![
            [10, 10, 10, 255],
            [11, 11, 11, 255],
            [12, 12, 12, 255],
            [13, 13, 13, 255],
            [14, 14, 14, 255],
        ],
        vec![
            [15, 15, 15, 255],
            [16, 16, 16, 255],
            [17, 17, 17, 255],
            [18, 18, 18, 255],
            [19, 19, 19, 255],
        ],
        vec![
            [20, 20, 20, 255],
            [21, 21, 21, 255],
            [22, 22, 22, 255],
            [23, 23, 23, 255],
            [24, 24, 24, 255],
        ],
    ];

    run_transformation_test(
        Transform::Normal,
        vec![
            vec![[0, 0, 0, 255], [1, 1, 1, 255], [2, 2, 2, 255], [3, 3, 3, 255], [4, 4, 4, 255]],
            vec![[5, 5, 5, 255], [6, 6, 6, 255], [7, 7, 7, 255], [8, 8, 8, 255], [9, 9, 9, 255]],
            vec![
                [10, 10, 10, 255],
                [11, 11, 11, 255],
                [12, 12, 12, 255],
                [13, 13, 13, 255],
                [14, 14, 14, 255],
            ],
            vec![
                [15, 15, 15, 255],
                [16, 16, 16, 255],
                [17, 17, 17, 255],
                [18, 18, 18, 255],
                [19, 19, 19, 255],
            ],
            vec![
                [20, 20, 20, 255],
                [21, 21, 21, 255],
                [22, 22, 22, 255],
                [23, 23, 23, 255],
                [24, 24, 24, 255],
            ],
        ],
        expected_result.clone(),
    );

    run_transformation_test(
        Transform::Rotated90,
        vec![
            vec![
                [4, 4, 4, 255],
                [9, 9, 9, 255],
                [14, 14, 14, 255],
                [19, 19, 19, 255],
                [24, 24, 24, 255],
            ],
            vec![
                [3, 3, 3, 255],
                [8, 8, 8, 255],
                [13, 13, 13, 255],
                [18, 18, 18, 255],
                [23, 23, 23, 255],
            ],
            vec![
                [2, 2, 2, 255],
                [7, 7, 7, 255],
                [12, 12, 12, 255],
                [17, 17, 17, 255],
                [22, 22, 22, 255],
            ],
            vec![
                [1, 1, 1, 255],
                [6, 6, 6, 255],
                [11, 11, 11, 255],
                [16, 16, 16, 255],
                [21, 21, 21, 255],
            ],
            vec![
                [0, 0, 0, 255],
                [5, 5, 5, 255],
                [10, 10, 10, 255],
                [15, 15, 15, 255],
                [20, 20, 20, 255],
            ],
        ],
        expected_result.clone(),
    );

    run_transformation_test(
        Transform::Rotated180,
        vec![
            vec![
                [24, 24, 24, 255],
                [23, 23, 23, 255],
                [22, 22, 22, 255],
                [21, 21, 21, 255],
                [20, 20, 20, 255],
            ],
            vec![
                [19, 19, 19, 255],
                [18, 18, 18, 255],
                [17, 17, 17, 255],
                [16, 16, 16, 255],
                [15, 15, 15, 255],
            ],
            vec![
                [14, 14, 14, 255],
                [13, 13, 13, 255],
                [12, 12, 12, 255],
                [11, 11, 11, 255],
                [10, 10, 10, 255],
            ],
            vec![[9, 9, 9, 255], [8, 8, 8, 255], [7, 7, 7, 255], [6, 6, 6, 255], [5, 5, 5, 255]],
            vec![[4, 4, 4, 255], [3, 3, 3, 255], [2, 2, 2, 255], [1, 1, 1, 255], [0, 0, 0, 255]],
        ],
        expected_result.clone(),
    );

    run_transformation_test(
        Transform::Rotated270,
        vec![
            vec![
                [20, 20, 20, 255],
                [15, 15, 15, 255],
                [10, 10, 10, 255],
                [5, 5, 5, 255],
                [0, 0, 0, 255],
            ],
            vec![
                [21, 21, 21, 255],
                [16, 16, 16, 255],
                [11, 11, 11, 255],
                [6, 6, 6, 255],
                [1, 1, 1, 255],
            ],
            vec![
                [22, 22, 22, 255],
                [17, 17, 17, 255],
                [12, 12, 12, 255],
                [7, 7, 7, 255],
                [2, 2, 2, 255],
            ],
            vec![
                [23, 23, 23, 255],
                [18, 18, 18, 255],
                [13, 13, 13, 255],
                [8, 8, 8, 255],
                [3, 3, 3, 255],
            ],
            vec![
                [24, 24, 24, 255],
                [19, 19, 19, 255],
                [14, 14, 14, 255],
                [9, 9, 9, 255],
                [4, 4, 4, 255],
            ],
        ],
        expected_result.clone(),
    );

    run_transformation_test(
        Transform::Flipped,
        vec![
            vec![[4, 4, 4, 255], [3, 3, 3, 255], [2, 2, 2, 255], [1, 1, 1, 255], [0, 0, 0, 255]],
            vec![[9, 9, 9, 255], [8, 8, 8, 255], [7, 7, 7, 255], [6, 6, 6, 255], [5, 5, 5, 255]],
            vec![
                [14, 14, 14, 255],
                [13, 13, 13, 255],
                [12, 12, 12, 255],
                [11, 11, 11, 255],
                [10, 10, 10, 255],
            ],
            vec![
                [19, 19, 19, 255],
                [18, 18, 18, 255],
                [17, 17, 17, 255],
                [16, 16, 16, 255],
                [15, 15, 15, 255],
            ],
            vec![
                [24, 24, 24, 255],
                [23, 23, 23, 255],
                [22, 22, 22, 255],
                [21, 21, 21, 255],
                [20, 20, 20, 255],
            ],
        ],
        expected_result.clone(),
    );

    run_transformation_test(
        Transform::Flipped90,
        vec![
            vec![
                [0, 0, 0, 255],
                [5, 5, 5, 255],
                [10, 10, 10, 255],
                [15, 15, 15, 255],
                [20, 20, 20, 255],
            ],
            vec![
                [1, 1, 1, 255],
                [6, 6, 6, 255],
                [11, 11, 11, 255],
                [16, 16, 16, 255],
                [21, 21, 21, 255],
            ],
            vec![
                [2, 2, 2, 255],
                [7, 7, 7, 255],
                [12, 12, 12, 255],
                [17, 17, 17, 255],
                [22, 22, 22, 255],
            ],
            vec![
                [3, 3, 3, 255],
                [8, 8, 8, 255],
                [13, 13, 13, 255],
                [18, 18, 18, 255],
                [23, 23, 23, 255],
            ],
            vec![
                [4, 4, 4, 255],
                [9, 9, 9, 255],
                [14, 14, 14, 255],
                [19, 19, 19, 255],
                [24, 24, 24, 255],
            ],
        ],
        expected_result.clone(),
    );
}

#[test]
fn test_transformation_even_square() {
}

// instantiates struct and uses given arguments to test
fn run_transformation_test(
    transform: Transform,
    input: Vec<Vec<[u8; 4]>>,
    expected_result: Vec<Vec<[u8; 4]>>,
) {
    let width = input.len();
    let height = input[0].len();

    let input_data = pixel_array_to_bytes(input);

    let output_capture = OutputCapture {
        transform,
        image_data: input_data,
        image_data_size: Size::new(width as i32, height as i32),
        // logical position and size should not affect this test
        image_logical_position: Position::new(0, 0),
        image_logical_size: Size::new(0, 0),
        image_pixel_format: PixelFormat::Xbgr8888,
    };

    // apply the transformation
    let (width, height, result_data) = output_capture.get_transform_corrected_buffer();

    // the width and height should now match the expected result's
    assert_eq!(width, expected_result.len());
    assert_eq!(height, expected_result[0].len());

    // turn the pixel array into a byte buffer for comparison
    let expected_result_data = pixel_array_to_bytes(expected_result);

    // the buffer lengths should match
    assert_eq!(result_data.len(), expected_result_data.len());

    // check each value in the buffer
    for i in 0..result_data.len() {
        assert_eq!(result_data[i], expected_result_data[i]);
    }
}

// helper function to flatten the pixel array into a byte buffer
fn pixel_array_to_bytes(pixel_array: Vec<Vec<[u8; 4]>>) -> Vec<u8> {
    let mut data = vec![0u8; 5 * 5 * 4];

    for (i, row) in pixel_array.into_iter().enumerate() {
        for (j, pixel) in row.into_iter().enumerate() {
            for (k, channel) in pixel.into_iter().enumerate() {
                data[(i * 5 * 4) + (j * 4) + k] = channel;
            }
        }
    }

    data
}

// each wire format reorders to R, G, B with alpha kept only for the
// format that carries one
#[test]
fn test_transform_pixel_formats() {
    let raw = [0x10u8, 0x20, 0x30, 0x40];
    assert_eq!(OutputCapture::transform_pixel(PixelFormat::Argb8888, &raw), [0x30, 0x20, 0x10, 0x40]);
    assert_eq!(OutputCapture::transform_pixel(PixelFormat::Xbgr8888, &raw), [0x10, 0x20, 0x30, 255]);
    assert_eq!(OutputCapture::transform_pixel(PixelFormat::Xrgb8888, &raw), [0x30, 0x20, 0x10, 255]);
}

// a fixed byte pattern in each supported format, normalized through the
// whole buffer path
#[test]
fn test_format_normalization_exact_buffers() {
    // two pixels wide, one tall: bytes b0 b1 b2 b3 per pixel
    let raw = vec![1u8, 2, 3, 4, 5, 6, 7, 8];

    let run = |format: PixelFormat| -> Vec<u8> {
        let oc = OutputCapture {
            transform: Transform::Normal,
            image_data: raw.clone(),
            image_data_size: Size::new(2, 1),
            image_logical_position: Position::new(0, 0),
            image_logical_size: Size::new(2, 1),
            image_pixel_format: format,
        };
        oc.get_transform_corrected_buffer().2
    };

    assert_eq!(run(PixelFormat::Argb8888), vec![3, 2, 1, 4, 7, 6, 5, 8]);
    assert_eq!(run(PixelFormat::Xbgr8888), vec![1, 2, 3, 255, 5, 6, 7, 255]);
    assert_eq!(run(PixelFormat::Xrgb8888), vec![3, 2, 1, 255, 7, 6, 5, 255]);
}

// the identity transform leaves content and dimensions unchanged
#[test]
fn test_normal_transform_is_identity() {
    let raw: Vec<u8> = (0..3 * 2).flat_map(|i| [i as u8, (i + 1) as u8, (i + 2) as u8, 255]).collect();
    let oc = OutputCapture {
        transform: Transform::Normal,
        image_data: raw.clone(),
        image_data_size: Size::new(3, 2),
        image_logical_position: Position::new(0, 0),
        image_logical_size: Size::new(3, 2),
        image_pixel_format: PixelFormat::Xbgr8888,
    };
    let (w, h, out) = oc.get_transform_corrected_buffer();
    assert_eq!((w, h), (3, 2));
    assert_eq!(out, raw);
}

// rotating by 90 degrees and then by 270 restores the original buffer
#[test]
fn test_rotate_90_then_270_round_trip() {
    let raw: Vec<u8> = (0..4 * 3).flat_map(|i| [i as u8, (2 * i) as u8, (3 * i) as u8, 255]).collect();
    let first = OutputCapture {
        transform: Transform::Rotated90,
        image_data: raw.clone(),
        image_data_size: Size::new(4, 3),
        image_logical_position: Position::new(0, 0),
        image_logical_size: Size::new(4, 3),
        image_pixel_format: PixelFormat::Xbgr8888,
    };
    let (w1, h1, once) = first.get_transform_corrected_buffer();
    assert_eq!((w1, h1), (3, 4));
    let second = OutputCapture {
        transform: Transform::Rotated270,
        image_data: once,
        image_data_size: Size::new(3, 4),
        image_logical_position: Position::new(0, 0),
        image_logical_size: Size::new(3, 4),
        image_pixel_format: PixelFormat::Xbgr8888,
    };
    let (w2, h2, twice) = second.get_transform_corrected_buffer();
    assert_eq!((w2, h2), (4, 3));
    assert_eq!(twice, raw);
}

// and the other way round
#[test]
fn test_rotate_270_then_90_round_trip() {
    let raw: Vec<u8> = (0..4 * 3).flat_map(|i| [(7 * i) as u8, i as u8, (5 * i) as u8, 255]).collect();
    let first = OutputCapture {
        transform: Transform::Rotated270,
        image_data: raw.clone(),
        image_data_size: Size::new(4, 3),
        image_logical_position: Position::new(0, 0),
        image_logical_size: Size::new(4, 3),
        image_pixel_format: PixelFormat::Xbgr8888,
    };
    let (w1, h1, once) = first.get_transform_corrected_buffer();
    assert_eq!((w1, h1), (3, 4));
    let second = OutputCapture {
        transform: Transform::Rotated90,
        image_data: once,
        image_data_size: Size::new(3, 4),
        image_logical_position: Position::new(0, 0),
        image_logical_size: Size::new(3, 4),
        image_pixel_format: PixelFormat::Xbgr8888,
    };
    let (w2, h2, twice) = second.get_transform_corrected_buffer();
    assert_eq!((w2, h2), (4, 3));
    assert_eq!(twice, raw);
}

// the two mirrored variants the square test leaves out: a vertical
// mirror for Flipped180 and a transpose-with-mirror for Flipped270
#[test]
fn test_flipped_180_and_270() {
    // two by two source pixels, numbered row-major
    let raw = vec![
        1u8, 1, 1, 255, 2, 2, 2, 255, //
        3, 3, 3, 255, 4, 4, 4, 255,
    ];
    let run = |transform: Transform| -> Vec<u8> {
        let oc = OutputCapture {
            transform,
            image_data: raw.clone(),
            image_data_size: Size::new(2, 2),
            image_logical_position: Position::new(0, 0),
            image_logical_size: Size::new(2, 2),
            image_pixel_format: PixelFormat::Xbgr8888,
        };
        oc.get_transform_corrected_buffer().2
    };
    assert_eq!(
        run(Transform::Flipped180),
        vec![
            3u8, 3, 3, 255, 4, 4, 4, 255, //
            1, 1, 1, 255, 2, 2, 2, 255,
        ]
    );
    assert_eq!(
        run(Transform::Flipped270),
        vec![
            4u8, 4, 4, 255, 2, 2, 2, 255, //
            3, 3, 3, 255, 1, 1, 1, 255,
        ]
    );
}

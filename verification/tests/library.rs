use kmeans_colors::{
    create_filename, create_filename_palette, generate_filename, generate_filename_palette,
    get_kmeans, get_kmeans_hamerly, init_plus_plus, parse_color, CentroidData, CliError, Fraction,
    HamerlyCentroids, HamerlyPoint, Kmeans, MapColor, OutPath, Point, Rgb8, SeedRng,
};

fn pt(c0: u64, c1: u64, c2: u64) -> Point {
    Point { c0, c1, c2 }
}

#[test]
fn dominant_color() {
    let res = vec![
        CentroidData {
            centroid: pt(0, 0, 0),
            percentage: Fraction { num: 50, den: 100 },
            index: 0,
        },
        CentroidData {
            centroid: pt(131072, 131072, 131072),
            percentage: Fraction { num: 80, den: 100 },
            index: 0,
        },
        CentroidData {
            centroid: pt(262144, 262144, 262144),
            percentage: Fraction { num: 15, den: 100 },
            index: 0,
        },
    ];
    assert_eq!(
        Point::get_dominant_color(&res).unwrap(),
        pt(131072, 131072, 131072)
    );
}

#[test]
fn dominant_color_empty() {
    let res: Vec<CentroidData> = Vec::new();
    assert!(Point::get_dominant_color(&res).is_none());
}

#[test]
fn dominant_color_tie_takes_last() {
    let res = vec![
        CentroidData {
            centroid: pt(1, 1, 1),
            percentage: Fraction { num: 1, den: 2 },
            index: 0,
        },
        CentroidData {
            centroid: pt(2, 2, 2),
            percentage: Fraction { num: 2, den: 4 },
            index: 1,
        },
    ];
    assert_eq!(Point::get_dominant_color(&res).unwrap(), pt(2, 2, 2));
}

#[test]
fn naive_engine_is_deterministic() {
    let buf = vec![pt(0, 10, 20), pt(5, 5, 5), pt(255, 255, 255), pt(100, 90, 80)];
    let a = get_kmeans(2, 20, 0, false, &buf, 7);
    let b = get_kmeans(2, 20, 0, false, &buf, 7);
    assert_eq!(a.score, b.score);
    assert_eq!(a.centroids, b.centroids);
    assert_eq!(a.indices, b.indices);
}

#[test]
fn hamerly_engine_is_deterministic() {
    let buf = vec![pt(0, 10, 20), pt(5, 5, 5), pt(255, 255, 255), pt(100, 90, 80)];
    let a = get_kmeans_hamerly(3, 20, 0, false, &buf, 11);
    let b = get_kmeans_hamerly(3, 20, 0, false, &buf, 11);
    assert_eq!(a.score, b.score);
    assert_eq!(a.centroids, b.centroids);
    assert_eq!(a.indices, b.indices);
}

#[test]
fn k1_centroid_is_the_mean() {
    let buf = vec![pt(0, 0, 0), pt(10, 10, 10)];
    let naive = get_kmeans(1, 20, 0, false, &buf, 0);
    assert_eq!(naive.centroids, vec![pt(5, 5, 5)]);
    let fast = get_kmeans_hamerly(1, 20, 0, false, &buf, 0);
    assert_eq!(fast.centroids, vec![pt(5, 5, 5)]);
}

#[test]
fn engines_agree_on_two_clusters() {
    let buf = vec![pt(0, 0, 0), pt(0, 0, 0), pt(255, 255, 255), pt(255, 255, 255)];
    let naive = get_kmeans(2, 20, 0, false, &buf, 0);
    let fast = get_kmeans_hamerly(2, 20, 0, false, &buf, 0);
    assert_eq!(naive.score, fast.score);
    assert_eq!(naive.centroids, fast.centroids);
    assert_eq!(naive.indices, fast.indices);
}

#[test]
fn two_well_separated_clusters() {
    let buf = vec![pt(0, 0, 0), pt(0, 0, 0), pt(255, 255, 255), pt(255, 255, 255)];
    let result = get_kmeans(2, 20, 0, false, &buf, 0);
    assert_eq!(result.score, 0);
    let mut centroids = result.centroids.clone();
    centroids.sort_by_key(|p| p.c0);
    assert_eq!(centroids, vec![pt(0, 0, 0), pt(255, 255, 255)]);

    let ranked = Point::sort_indexed_colors(&result.centroids, &result.indices);
    assert_eq!(ranked.len(), 2);
    assert_eq!(ranked[0].centroid, pt(0, 0, 0));
    assert_eq!(ranked[1].centroid, pt(255, 255, 255));
    assert_eq!(ranked[0].percentage, Fraction { num: 2, den: 4 });
    assert_eq!(ranked[1].percentage, Fraction { num: 2, den: 4 });
}

#[test]
fn single_point_buffer_converges_to_it() {
    let buf = vec![pt(7, 8, 9)];
    let naive = get_kmeans(1, 20, 0, false, &buf, 123);
    assert_eq!(naive.centroids, vec![pt(7, 8, 9)]);
    assert_eq!(naive.indices, vec![0u8]);
    assert_eq!(naive.score, 0);
    let fast = get_kmeans_hamerly(1, 20, 0, false, &buf, 123);
    assert_eq!(fast.centroids, vec![pt(7, 8, 9)]);
    assert_eq!(fast.indices, vec![0u8]);
    assert_eq!(fast.score, 0);
}

#[test]
fn seeding_k1_picks_a_buffer_point() {
    let buf = vec![pt(1, 2, 3), pt(4, 5, 6), pt(7, 8, 9)];
    let mut rng = SeedRng::new(42);
    let mut centroids: Vec<Point> = Vec::new();
    init_plus_plus(1, &mut rng, &buf, &mut centroids);
    assert_eq!(centroids.len(), 1);
    assert!(buf.contains(&centroids[0]));
}

#[test]
fn seeding_stops_early_on_exhausted_buffer() {
    let buf = vec![pt(0, 0, 0), pt(9, 9, 9)];
    let mut rng = SeedRng::new(3);
    let mut centroids: Vec<Point> = Vec::new();
    init_plus_plus(3, &mut rng, &buf, &mut centroids);
    assert_eq!(centroids.len(), 2);
    assert!(centroids.contains(&pt(0, 0, 0)));
    assert!(centroids.contains(&pt(9, 9, 9)));
}

#[test]
fn map_indices_round_trip() {
    let centroids = vec![pt(1, 1, 1), pt(2, 2, 2)];
    let indices = vec![0u8, 1, 0];
    let out = Point::map_indices_to_centroids(&centroids, &indices);
    assert_eq!(out.len(), indices.len());
    for (o, i) in out.iter().zip(indices.iter()) {
        assert_eq!(*o, centroids[*i as usize]);
    }
}

#[test]
fn map_indices_fall_back_to_last_centroid() {
    let centroids = vec![pt(1, 1, 1), pt(2, 2, 2)];
    let indices = vec![0u8, 9];
    let out = Point::map_indices_to_centroids(&centroids, &indices);
    assert_eq!(out, vec![pt(1, 1, 1), pt(2, 2, 2)]);
}

#[test]
fn percentages_sum_to_one() {
    let buf = vec![
        pt(0, 0, 0),
        pt(1, 1, 1),
        pt(100, 100, 100),
        pt(200, 200, 200),
        pt(201, 199, 200),
    ];
    let result = get_kmeans(3, 20, 0, false, &buf, 5);
    let ranked = Point::sort_indexed_colors(&result.centroids, &result.indices);
    let total: u64 = ranked.iter().map(|c| c.percentage.num).sum();
    assert_eq!(total, buf.len() as u64);
    for c in &ranked {
        assert_eq!(c.percentage.den, buf.len() as u64);
    }
}

#[test]
fn ranked_colors_are_ordered_by_luminosity() {
    let centroids = vec![pt(300, 0, 0), pt(100, 0, 0), pt(200, 0, 0)];
    let indices = vec![0u8, 1, 2, 1];
    let ranked = Point::sort_indexed_colors(&centroids, &indices);
    assert_eq!(ranked.len(), 3);
    assert_eq!(ranked[0].centroid, pt(100, 0, 0));
    assert_eq!(ranked[1].centroid, pt(200, 0, 0));
    assert_eq!(ranked[2].centroid, pt(300, 0, 0));
    assert_eq!(ranked[0].index, 1);
    assert_eq!(ranked[0].percentage, Fraction { num: 2, den: 4 });
}

#[test]
fn ranked_colors_omit_empty_clusters() {
    let centroids = vec![pt(10, 0, 0), pt(20, 0, 0)];
    let indices = vec![1u8, 1, 1];
    let ranked = Point::sort_indexed_colors(&centroids, &indices);
    assert_eq!(ranked.len(), 1);
    assert_eq!(ranked[0].centroid, pt(20, 0, 0));
    assert_eq!(ranked[0].percentage, Fraction { num: 3, den: 3 });
}

#[test]
fn kmeans_new_has_maximal_score() {
    let empty = Kmeans::new();
    assert_eq!(empty.score, u64::MAX);
    assert!(empty.centroids.is_empty());
    assert!(empty.indices.is_empty());
}

#[test]
fn best_of_n_keeps_lowest_score() {
    let buf = vec![pt(0, 0, 0), pt(50, 50, 50), pt(255, 255, 255)];
    let mut best = Kmeans::new();
    for i in 0..3u64 {
        let run = get_kmeans(2, 20, 0, false, &buf, i);
        if run.score < best.score {
            best = run;
        }
    }
    assert!(best.score < u64::MAX);
    assert_eq!(best.indices.len(), buf.len());
}

#[test]
fn hamerly_caches_start_zeroed() {
    let centers = HamerlyCentroids::new(4);
    assert!(centers.centroids.is_empty());
    assert_eq!(centers.deltas, vec![0u64; 4]);
    assert_eq!(centers.half_distances, vec![0u64; 4]);
    let p = HamerlyPoint::new();
    assert_eq!(p.index, 0);
    assert_eq!(p.upper_bound, u64::MAX);
    assert_eq!(p.lower_bound, 0);
}

#[test]
fn integer_square_roots() {
    assert_eq!(kmeans_colors::hamerly::int_sqrt(0), 0);
    assert_eq!(kmeans_colors::hamerly::int_sqrt(15), 3);
    assert_eq!(kmeans_colors::hamerly::int_sqrt(16), 4);
    assert_eq!(kmeans_colors::hamerly::int_sqrt(u64::MAX), 4294967295);
    assert_eq!(kmeans_colors::hamerly::int_sqrt_ceil(15), 4);
    assert_eq!(kmeans_colors::hamerly::int_sqrt_ceil(16), 4);
    assert_eq!(kmeans_colors::hamerly::int_sqrt_ceil(17), 5);
}

#[test]
fn generated_filenames_carry_the_timestamp() {
    let stem = String::from("img");
    assert_eq!(generate_filename(&stem, 12, 5, Some(3)), "img-12005-3");
    assert_eq!(generate_filename(&stem, 12, 5, None), "img-12005");
    assert_eq!(generate_filename(&stem, 0, 999, None), "img-0999");
    assert_eq!(
        generate_filename_palette(&stem, 8, false, 12, 5),
        "img-12005-lab-8"
    );
    assert_eq!(
        generate_filename_palette(&stem, 8, true, 12, 5),
        "img-12005-rgb-8"
    );
}

#[test]
fn create_filename_respects_user_output() {
    let stem = String::from("img");
    let ext = String::from("png");

    let named = create_filename(
        1,
        &Some(OutPath { stem: String::from("out"), extension: Some(String::from("jpg")) }),
        &ext,
        Some(3),
        &stem,
        12,
        5,
    );
    assert_eq!(named.stem, "out");
    assert_eq!(named.ext, "jpg");

    let defaulted = create_filename(
        2,
        &Some(OutPath { stem: String::from("out"), extension: None }),
        &ext,
        None,
        &stem,
        0,
        0,
    );
    assert_eq!(defaulted.stem, "img-out");
    assert_eq!(defaulted.ext, "png");

    let generated = create_filename(1, &None, &ext, Some(3), &stem, 12, 5);
    assert_eq!(generated.stem, "img-12005-3");
    assert_eq!(generated.ext, "png");
}

#[test]
fn create_filename_palette_defaults_to_png() {
    let stem = String::from("img");
    let generated = create_filename_palette(1, &None, false, Some(8), &stem, 12, 5);
    assert_eq!(generated.stem, "img-12005-lab-8");
    assert_eq!(generated.ext, "png");

    let named = create_filename_palette(
        1,
        &Some(OutPath { stem: String::from("pal"), extension: None }),
        true,
        None,
        &stem,
        0,
        0,
    );
    assert_eq!(named.stem, "pal");
    assert_eq!(named.ext, "png");
}

#[test]
fn parse_color_accepts_three_and_six_digits() {
    assert_eq!(
        parse_color("#abc").unwrap(),
        Rgb8 { red: 170, green: 187, blue: 204 }
    );
    assert_eq!(
        parse_color("aabbcc").unwrap(),
        Rgb8 { red: 170, green: 187, blue: 204 }
    );
    assert_eq!(
        parse_color("#AaBbCc").unwrap(),
        Rgb8 { red: 170, green: 187, blue: 204 }
    );
    assert_eq!(
        parse_color("000000").unwrap(),
        Rgb8 { red: 0, green: 0, blue: 0 }
    );
    assert_eq!(
        parse_color("fff").unwrap(),
        Rgb8 { red: 255, green: 255, blue: 255 }
    );
}

#[test]
fn parse_color_rejects_everything_else() {
    assert!(matches!(parse_color(""), Err(CliError::InvalidHex)));
    assert!(matches!(parse_color("12"), Err(CliError::InvalidHex)));
    assert!(matches!(parse_color("#1234"), Err(CliError::InvalidHex)));
    assert!(matches!(parse_color("ggg"), Err(CliError::InvalidHex)));
    assert!(matches!(parse_color("aabbcg"), Err(CliError::InvalidHex)));
}

#[test]
fn cli_error_messages() {
    assert_eq!(
        CliError::InvalidHex.message(),
        "Invalid hex color, must be 3 or 6 digts"
    );
    assert_eq!(
        CliError::File(String::from("gone")).message(),
        "gone"
    );
}

#[test]
fn engine_tolerates_fewer_distinct_points_than_k() {
    // Seeding stops early when every point coincides with a chosen
    // centroid, so the centroid set may stay shorter than k.
    let buf = vec![pt(0, 0, 0), pt(9, 9, 9), pt(0, 0, 0)];
    let result = get_kmeans(3, 20, 0, false, &buf, 1);
    assert_eq!(result.centroids.len(), 2);
    assert!(result.indices.iter().all(|&i| (i as usize) < result.centroids.len()));
    let fast = get_kmeans_hamerly(3, 20, 0, false, &buf, 1);
    assert_eq!(fast.centroids.len(), 2);
}

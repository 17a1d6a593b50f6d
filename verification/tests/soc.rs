use xous_services::soc::{category_name, check, svd_files, Category, FeatureError, Features};

const NOTHING: Features = Features {
    precursor: false,
    hosted: false,
    renode: false,
    precursor_c809403: false,
    precursor_c809403_perflib: false,
    precursor_2753c12_dvt: false,
};

#[test]
fn one_target_is_needed() {
    assert_eq!(check(NOTHING), Err(FeatureError::NonePicked(Category::Targets)));
    assert_eq!(check(Features { hosted: true, ..NOTHING }), Ok(()));
    assert_eq!(check(Features { renode: true, ..NOTHING }), Ok(()));
    assert_eq!(
        check(Features { hosted: true, renode: true, ..NOTHING }),
        Err(FeatureError::MultiplePicked(Category::Targets))
    );
}

#[test]
fn one_revision_is_needed() {
    let precursor = Features { precursor: true, ..NOTHING };
    assert_eq!(check(precursor), Err(FeatureError::NonePicked(Category::Gitrevs)));
    assert_eq!(check(Features { precursor_c809403: true, ..precursor }), Ok(()));
    assert_eq!(
        check(Features {
            precursor_c809403: true,
            precursor_2753c12_dvt: true,
            ..precursor
        }),
        Err(FeatureError::MultiplePicked(Category::Gitrevs))
    );
    assert_eq!(category_name(Category::Targets), "targets");
    assert_eq!(category_name(Category::Gitrevs), "gitrevs");
}

#[test]
fn files_of_each_target() {
    let precursor = Features { precursor: true, ..NOTHING };
    let files = svd_files(Features { precursor_c809403: true, ..precursor }).unwrap();
    assert_eq!(files.svd, "precursor/soc-c809403.svd");
    assert_eq!(files.generated, "src/generated/precursor_c809403.rs");
    let files = svd_files(Features { precursor_c809403_perflib: true, ..precursor }).unwrap();
    assert_eq!(files.svd, "precursor/soc-perf-c809403.svd");
    assert_eq!(files.generated, "src/generated/precursor_perf_c809403.rs");
    let files = svd_files(Features { precursor_2753c12_dvt: true, ..precursor }).unwrap();
    assert_eq!(files.svd, "precursor/soc-dvt-2753c12.svd");
    assert_eq!(files.generated, "src/generated/precursor_dvt_2753c12.rs");
    let files = svd_files(Features { renode: true, ..NOTHING }).unwrap();
    assert_eq!(files.svd, "renode/renode.svd");
    assert_eq!(files.generated, "src/generated/renode.rs");
    // Revisions only matter for `precursor`.
    let files =
        svd_files(Features { renode: true, precursor_2753c12_dvt: true, ..NOTHING }).unwrap();
    assert_eq!(files.svd, "renode/renode.svd");
    assert!(svd_files(Features { hosted: true, ..NOTHING }).is_none());
}

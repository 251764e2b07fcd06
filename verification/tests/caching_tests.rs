use personal_site::caching::{CacheControl, CacheLayer, Options};

#[test]
fn default_options_denote_public_no_cache() {
    let options = Options::default();
    assert_eq!(options.header_value(), "public, no-cache, max-age=0");
}

#[test]
fn no_store_header_value() {
    let options = Options {
        cache_control: CacheControl::NoStore,
        private: false,
        immutable: false,
    };
    assert_eq!(options.header_value(), "public, no-store");
}

#[test]
fn max_age_formats_the_seconds_in_decimal() {
    let options = Options {
        cache_control: CacheControl::MaxAge(3600),
        private: true,
        immutable: false,
    };
    assert_eq!(options.header_value(), "private, max-age=3600");
}

#[test]
fn must_revalidate_with_immutable() {
    let options = Options {
        cache_control: CacheControl::MustRevalidate(30),
        private: false,
        immutable: true,
    };
    assert_eq!(
        options.header_value(),
        "public, max-age=30, must-revalidate, immutable"
    );
}

#[test]
fn zero_and_large_max_age() {
    let zero = Options { cache_control: CacheControl::MaxAge(0), private: false, immutable: false };
    assert_eq!(zero.header_value(), "public, max-age=0");
    let large = Options {
        cache_control: CacheControl::MaxAge(u32::MAX),
        private: false,
        immutable: false,
    };
    assert_eq!(large.header_value(), "public, max-age=4294967295");
}

#[test]
fn cache_layer_new_keeps_options() {
    let options = Options { cache_control: CacheControl::MaxAge(60), private: true, immutable: true };
    let layer = CacheLayer::new(options);
    assert_eq!(layer.options, options);
}

#[test]
fn cache_layer_default_is_default_options() {
    let layer = CacheLayer::default();
    assert_eq!(layer.options, Options::default());
}

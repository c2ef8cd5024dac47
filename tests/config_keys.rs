use retube::config::{
    cache_cleanup_threshold_mb, default_count, default_mainurl, default_port,
    temp_folder_max_size_mb, ApiConfig, CacheConfig, Config, ConfigError, KeyRotation,
    ProxyConfig, ServerConfig, VideoConfig,
};

fn config(keys: &[&str], bad: &[&str], innertube: Option<&str>) -> Config {
    Config {
        server: ServerConfig {
            port: default_port(),
            mainurl: default_mainurl(),
            secretkey: String::new(),
            frontend_url: String::new(),
        },
        api: ApiConfig {
            api_keys: keys.iter().map(|k| k.to_string()).collect(),
            dontworkedkeys: bad.iter().map(|k| k.to_string()).collect(),
            innertube_key: innertube.map(|k| k.to_string()),
            oauth_client_id: String::new(),
            oauth_client_secret: String::new(),
            request_timeout: 30,
            redirect_uri: None,
        },
        video: VideoConfig {
            default_quality: "360".to_string(),
            available_qualities: Vec::new(),
            video_source: "direct".to_string(),
            use_cookies: false,
            default_count: default_count(),
        },
        proxy: ProxyConfig {
            use_thumbnail_proxy: true,
            use_channel_thumbnail_proxy: false,
            use_video_proxy: true,
            fetch_channel_thumbnails: false,
        },
        cache: CacheConfig {
            temp_folder_max_size_mb: temp_folder_max_size_mb(),
            cache_cleanup_threshold_mb: cache_cleanup_threshold_mb(),
        },
        instants: Vec::new(),
    }
}

#[test]
fn defaults() {
    assert_eq!(default_port(), 2823);
    assert_eq!(default_mainurl(), "");
    assert_eq!(default_count(), 50);
    assert_eq!(temp_folder_max_size_mb(), 5120);
    assert_eq!(cache_cleanup_threshold_mb(), 100);
}

#[test]
fn rotation_gives_each_good_key_once_in_order() {
    let c = config(&["k1", "", "bad", "k2", "k3"], &["bad"], None);
    let mut rot = KeyRotation::new(4);
    let got: Vec<String> = (0..3).map(|_| c.get_api_key_rotated(&mut rot).unwrap()).collect();
    assert_eq!(got, vec!["k2", "k3", "k1"]);
    assert_eq!(rot.counter, 7);
}

#[test]
fn rotation_with_no_good_key_is_an_error() {
    let c = config(&["", "bad"], &["bad"], None);
    let mut rot = KeyRotation::new(0);
    assert_eq!(c.get_api_key_rotated(&mut rot), Err(ConfigError::KeyPoolExhausted));
    assert_eq!(rot.counter, 0);
}

#[test]
fn rotation_counter_wraps() {
    let c = config(&["a", "b"], &[], None);
    let mut rot = KeyRotation::new(usize::MAX);
    assert_eq!(c.get_api_key_rotated(&mut rot).unwrap(), if usize::MAX % 2 == 1 { "b" } else { "a" });
    assert_eq!(rot.counter, 0);
}

#[test]
fn innertube_key_is_trimmed_and_blank_is_none() {
    assert_eq!(config(&[], &[], Some("  key ")).get_innertube_key(), Some("key".to_string()));
    assert_eq!(config(&[], &[], Some("   ")).get_innertube_key(), None);
    assert_eq!(config(&[], &[], None).get_innertube_key(), None);
}

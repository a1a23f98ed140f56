use website::site::{patch_blog_config, SlidesConfig, Talk};

fn talk(name: &str, date: &str, location: &str) -> Talk {
    Talk {
        name: name.to_string(),
        date: date.to_string(),
        location: location.to_string(),
        dir_name: String::new(),
    }
}

#[test]
fn dir_name_dashes_and_lowercases_the_name() {
    let t = talk("Hello World", "2024-03-01", "Zurich");
    assert_eq!(t.dir_name(), "2024-03-01-hello-world");
}

#[test]
fn dir_name_replaces_every_space() {
    let t = talk("How  Rust Does It", "2023-11-20", "Bern");
    assert_eq!(t.dir_name(), "2023-11-20-how--rust-does-it");
}

#[test]
fn dir_name_of_plain_name() {
    let t = talk("async", "2022-01-02", "");
    assert_eq!(t.dir_name(), "2022-01-02-async");
}

#[test]
fn dir_name_lowercases_beyond_ascii() {
    let t = talk("ÜBER Traits", "2021-05-05", "");
    assert_eq!(t.dir_name(), "2021-05-05-über-traits");
}

#[test]
fn assign_dir_names_fills_each_talk() {
    let mut config = SlidesConfig {
        talks: vec![talk("Hello World", "2024-03-01", "Zurich"), talk("B", "2020-01-01", "X")],
    };
    config.assign_dir_names();
    assert_eq!(config.talks.len(), 2);
    assert_eq!(config.talks[0].dir_name, "2024-03-01-hello-world");
    assert_eq!(config.talks[0].name, "Hello World");
    assert_eq!(config.talks[0].location, "Zurich");
    assert_eq!(config.talks[1].dir_name, "2020-01-01-b");
    assert_eq!(config.talks[1].date, "2020-01-01");
}

#[test]
fn copy_jobs_list_reveal_then_talks() {
    let config = SlidesConfig {
        talks: vec![talk("Hello World", "2024-03-01", "Zurich")],
    };
    let jobs = config.copy_jobs("/site/submodules/slides", "/site/dist/slides");
    assert_eq!(
        jobs,
        vec![
            ("/site/submodules/slides/dist".to_string(), "/site/dist/slides/dist".to_string()),
            ("/site/submodules/slides/plugin".to_string(), "/site/dist/slides/plugin".to_string()),
            (
                "/site/submodules/slides/2024-03-01-hello-world".to_string(),
                "/site/dist/slides/2024-03-01-hello-world".to_string()
            ),
        ]
    );
}

#[test]
fn copy_jobs_without_talks() {
    let config = SlidesConfig { talks: vec![] };
    assert_eq!(config.copy_jobs("s", "d").len(), 2);
}

#[test]
fn patch_blog_config_moves_base_url() {
    let config = "title = \"Blog\"\nbaseURL = \"/\"\ntheme = \"x\"\n";
    assert_eq!(
        patch_blog_config(config),
        "title = \"Blog\"\nbaseURL = \"/blog/\"\ntheme = \"x\"\n"
    );
}

#[test]
fn patch_blog_config_replaces_every_occurrence() {
    let config = "baseURL = \"/\"baseURL = \"/\"";
    assert_eq!(patch_blog_config(config), "baseURL = \"/blog/\"baseURL = \"/blog/\"");
}

#[test]
fn patch_blog_config_leaves_other_configs() {
    let config = "baseURL = \"/x/\"\n";
    assert_eq!(patch_blog_config(config), config);
    assert_eq!(patch_blog_config(""), "");
}

#[test]
fn patching_twice_changes_nothing() {
    let config = "baseURL = \"/\"\nx = 1\nbaseURL = \"/\"";
    let once = patch_blog_config(config);
    assert_eq!(patch_blog_config(&once), once);
}

#[test]
fn absolute_talk_directory_replaces_the_base() {
    let config = SlidesConfig { talks: vec![talk("x", "/abs", "")] };
    let jobs = config.copy_jobs("/slides", "/dist");
    assert_eq!(jobs[2], ("/abs-x".to_string(), "/abs-x".to_string()));
}

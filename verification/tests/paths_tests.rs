use mdex_dl::paths::{config_toml, log_save_dir, manga_save_dir};

#[test]
fn locations_hang_off_the_project_root() {
    assert_eq!(manga_save_dir("/srv/project"), "/srv/project/manga");
    assert_eq!(log_save_dir("/srv/project"), "/srv/project/log");
    assert_eq!(config_toml("/srv/project"), "/srv/project/config.toml");
}

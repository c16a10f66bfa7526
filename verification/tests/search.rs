use nixos_json_controller::nixos::discovery::search::{
    CandidateSearch, DirectoryEntry, DirectoryListing,
};
use nixos_json_controller::nixos::discovery::{DiscoverySource, Evidence, FlakeProbe, SearchOptions};

fn probe() -> FlakeProbe {
    FlakeProbe {
        flake_file_exists: true,
        flake_lock_exists: true,
        is_git_repository: false,
        has_hosts_directory: false,
        has_modules_directory: false,
        has_home_directory: false,
        has_system_directory: false,
        has_configuration_nix: false,
        has_hardware_configuration_nix: false,
    }
}

fn dir(path: &str) -> DirectoryEntry {
    DirectoryEntry {
        path: path.to_string(),
        name: path.rsplit('/').next().map(str::to_string),
        is_dir: true,
    }
}

/// A small home directory: `a` and `b/c` hold flakes, `a/sub` too, and
/// `.git` holds one that is never looked at.
fn listing(path: &str) -> DirectoryListing {
    let flake = |text: &str| Some((probe(), Some(text.to_string())));
    match path {
        "/home/u" | "/home/u/" => DirectoryListing {
            flake: None,
            entries: Some(vec![
                dir("/home/u/a"),
                dir("/home/u/.git"),
                DirectoryEntry { path: "/home/u/notes.txt".to_string(), name: Some("notes.txt".to_string()), is_dir: false },
                dir("/home/u/b"),
            ]),
        },
        "/home/u/a" => DirectoryListing {
            flake: flake("{ nixosConfigurations = {}; }"),
            entries: Some(vec![dir("/home/u/a/sub")]),
        },
        "/home/u/a/sub" => DirectoryListing { flake: flake("{ }"), entries: Some(vec![]) },
        "/home/u/b" => DirectoryListing { flake: None, entries: Some(vec![dir("/home/u/b/c")]) },
        "/home/u/b/c" => DirectoryListing { flake: flake("{ }"), entries: None },
        "/home/u/.git" => DirectoryListing { flake: flake("{ }"), entries: None },
        _ => DirectoryListing { flake: None, entries: None },
    }
}

/// Runs a search, returning the directories visited and the roots found.
fn search(roots: &[&str], is_dir: &[bool], max_depth: usize) -> (Vec<String>, Vec<String>) {
    let options = SearchOptions { roots: roots.iter().map(|r| r.to_string()).collect(), max_depth };
    let mut search = CandidateSearch::new(&options, &is_dir.to_vec());
    let mut visited = Vec::new();
    while let Some(next) = search.next_directory() {
        let path = next.path.clone();
        visited.push(path.clone());
        search.visit(listing(&path));
    }
    let found = search.into_candidates().into_iter().map(|c| c.flake_root).collect();
    (visited, found)
}

#[test]
fn search_goes_depth_first_in_listing_order() {
    let (visited, found) = search(&["/home/u"], &[true], 4);
    assert_eq!(
        visited,
        vec!["/home/u", "/home/u/a", "/home/u/a/sub", "/home/u/b", "/home/u/b/c"]
    );
    assert_eq!(found, vec!["/home/u/a", "/home/u/a/sub", "/home/u/b/c"]);
}

#[test]
fn search_stops_at_the_depth_limit() {
    let (visited, found) = search(&["/home/u"], &[true], 1);
    assert_eq!(visited, vec!["/home/u", "/home/u/a", "/home/u/b"]);
    assert_eq!(found, vec!["/home/u/a"]);
    let (visited, found) = search(&["/home/u"], &[true], 0);
    assert_eq!(visited, vec!["/home/u"]);
    assert!(found.is_empty());
}

#[test]
fn search_reports_each_flake_root_once() {
    let (visited, found) = search(&["/home/u", "/missing", "/home/u/"], &[true, false, true], 4);
    assert_eq!(visited.len(), 10);
    assert_eq!(found, vec!["/home/u/a", "/home/u/a/sub", "/home/u/b/c"]);
}

#[test]
fn found_candidates_carry_their_evidence() {
    let options = SearchOptions { roots: vec!["/home/u/a".to_string()], max_depth: 0 };
    let mut search = CandidateSearch::new(&options, &vec![true]);
    let next = search.next_directory().unwrap().path.clone();
    search.visit(listing(&next));
    assert!(search.next_directory().is_none());
    let found = search.into_candidates();
    assert_eq!(found.len(), 1);
    assert_eq!(found[0].flake_file, "/home/u/a/flake.nix");
    assert_eq!(found[0].sources, vec![DiscoverySource::HomeDirectory]);
    assert_eq!(
        found[0].evidence,
        vec![Evidence::FlakeFile, Evidence::FlakeLock, Evidence::NixosConfigurationsText]
    );
}

use azeroth_dashboard::process::{contains_chars, is_worldserver, worldserver_memory, ProcessSample};

fn sample(name: &str, memory: u64) -> ProcessSample {
    ProcessSample { name: name.to_string(), memory }
}

#[test]
fn world_servers_are_recognised_in_any_case() {
    assert!(is_worldserver("worldserver"));
    assert!(is_worldserver("WorldServer.exe"));
    assert!(is_worldserver("./bin/WORLDSERVER"));
    assert!(!is_worldserver("authserver"));
    assert!(!is_worldserver("world server"));
    assert!(!is_worldserver(""));
}

#[test]
fn substring_search() {
    let hay: Vec<char> = "abcabd".chars().collect();
    assert!(contains_chars(&hay, &"abd".chars().collect()));
    assert!(contains_chars(&hay, &Vec::new()));
    assert!(!contains_chars(&hay, &"abe".chars().collect()));
    assert!(!contains_chars(&Vec::new(), &"a".chars().collect()));
}

#[test]
fn memory_of_world_servers_is_added_up() {
    let ps = vec![sample("worldserver", 100), sample("authserver", 50), sample("WorldServer-2", 7)];
    assert_eq!(worldserver_memory(&ps), Some(107));
    assert_eq!(worldserver_memory(&vec![sample("bash", 9)]), Some(0));
    assert_eq!(worldserver_memory(&Vec::new()), Some(0));
}

#[test]
fn memory_total_past_u64_is_reported() {
    let ps = vec![sample("worldserver", u64::MAX), sample("worldserver", 1)];
    assert_eq!(worldserver_memory(&ps), None);
    let ps = vec![sample("worldserver", u64::MAX), sample("other", 1)];
    assert_eq!(worldserver_memory(&ps), Some(u64::MAX));
}

use pylon::system_info::{
    command_version, cpu_speeds, disk_totals, disk_used, first_line, holds_word, os_version,
    processor_info, rank_by_memory, service_statuses, services_among, top_processes, total,
    version_line, CachedInfo, DiskSpace, ProcessInfo,
};

fn process(pid: u32, name: &str, memory: u64) -> ProcessInfo {
    ProcessInfo { pid, name: name.to_string(), memory }
}

fn names(list: &[&str]) -> Vec<String> {
    list.iter().map(|n| n.to_string()).collect()
}

#[test]
fn total_adds_up() {
    assert_eq!(total(&vec![]), 0);
    assert_eq!(total(&vec![5]), 5);
    assert_eq!(total(&vec![1, 2, 3, 4]), 10);
    assert_eq!(total(&vec![u64::MAX - 1, 0, 1]), u64::MAX);
}

#[test]
fn cpu_speeds_of_no_processor_are_zero() {
    assert_eq!(cpu_speeds(&vec![]), (0, 0));
}

#[test]
fn cpu_speeds_give_mean_and_highest() {
    assert_eq!(cpu_speeds(&vec![2400]), (2400, 2400));
    assert_eq!(cpu_speeds(&vec![1000, 2000, 3000]), (2000, 3000));
    assert_eq!(cpu_speeds(&vec![3000, 1000, 1001]), (1667, 3000));
    assert_eq!(cpu_speeds(&vec![0, 0]), (0, 0));
    assert_eq!(cpu_speeds(&vec![1, 2]), (1, 2));
}

#[test]
fn disk_totals_add_capacity_and_usage() {
    assert_eq!(disk_totals(&vec![]), (0, 0));
    assert_eq!(
        disk_totals(&vec![DiskSpace { total: 100, available: 40 }, DiskSpace { total: 50, available: 50 }]),
        (150, 60)
    );
    assert_eq!(disk_totals(&vec![DiskSpace { total: 7, available: 0 }]), (7, 7));
}

#[test]
fn disk_used_is_capacity_less_free() {
    assert_eq!(disk_used(0, 0), 0);
    assert_eq!(disk_used(0, 5), 0);
    assert_eq!(disk_used(0, u64::MAX), 0);
    assert_eq!(disk_used(100, 25), 75);
    assert_eq!(disk_used(100, 100), 0);
}

#[test]
fn ranking_is_by_memory_largest_first() {
    let ranked = rank_by_memory(&vec![process(1, "a", 10), process(2, "b", 30), process(3, "c", 20)]);
    let pids: Vec<u32> = ranked.iter().map(|p| p.pid).collect();
    assert_eq!(pids, vec![2, 3, 1]);
    assert_eq!(ranked[0].name, "b");
    assert_eq!(ranked[0].memory, 30);
}

#[test]
fn ranking_keeps_equal_processes_in_order() {
    let ranked = rank_by_memory(&vec![
        process(1, "a", 5),
        process(2, "b", 9),
        process(3, "c", 5),
        process(4, "d", 9),
        process(5, "e", 5),
    ]);
    let pids: Vec<u32> = ranked.iter().map(|p| p.pid).collect();
    assert_eq!(pids, vec![2, 4, 1, 3, 5]);
}

#[test]
fn top_processes_are_at_most_five() {
    assert!(top_processes(&vec![]).is_empty());
    let few = top_processes(&vec![process(1, "a", 1), process(2, "b", 2)]);
    assert_eq!(few.iter().map(|p| p.pid).collect::<Vec<u32>>(), vec![2, 1]);
    let many: Vec<ProcessInfo> = (0..20u32).map(|i| process(i, "p", ((i * 7) % 20) as u64)).collect();
    let top = top_processes(&many);
    assert_eq!(top.iter().map(|p| p.memory).collect::<Vec<u64>>(), vec![19, 18, 17, 16, 15]);
    let five: Vec<ProcessInfo> = (0..5u32).map(|i| process(i, "p", i as u64)).collect();
    assert_eq!(top_processes(&five).len(), 5);
}

#[test]
fn top_processes_agree_with_a_stable_sort() {
    let list: Vec<ProcessInfo> = (0..50u32).map(|i| process(i, "p", ((i * 13) % 11) as u64)).collect();
    let mut expected: Vec<(u32, u64)> = list.iter().map(|p| (p.pid, p.memory)).collect();
    expected.sort_by(|a, b| b.1.cmp(&a.1));
    expected.truncate(5);
    let got: Vec<(u32, u64)> = top_processes(&list).iter().map(|p| (p.pid, p.memory)).collect();
    assert_eq!(got, expected);
}

#[test]
fn services_are_found_by_process_name() {
    let s = service_statuses(&names(&["systemd", "apache2", "sshd"]));
    assert_eq!(s.len(), 2);
    assert_eq!(s[0].name, "Apache2");
    assert!(s[0].running);
    assert_eq!(s[1].name, "MariaDB");
    assert!(!s[1].running);
    let t = service_statuses(&names(&["mysqld", "bash"]));
    assert!(!t[0].running);
    assert!(t[1].running);
    let u = service_statuses(&names(&["/usr/sbin/MariaDBd", "APACHE2-worker"]));
    assert!(u[0].running);
    assert!(u[1].running);
}

#[test]
fn no_process_no_service() {
    let s = service_statuses(&Vec::new());
    assert_eq!(s.len(), 2);
    assert!(!s[0].running);
    assert!(!s[1].running);
    let t = service_statuses(&names(&["apache", "maria", "sql"]));
    assert!(!t[0].running);
    assert!(!t[1].running);
}

#[test]
fn os_version_reads_the_pretty_name() {
    let text = "NAME=\"Ubuntu\"\nVERSION_ID=\"22.04\"\nPRETTY_NAME=\"Ubuntu 22.04.3 LTS\"\nID=ubuntu\n";
    assert_eq!(os_version(text), "Ubuntu 22.04.3 LTS");
    assert_eq!(os_version("PRETTY_NAME=Alpine Linux v3.19"), "Alpine Linux v3.19");
    assert_eq!(os_version("PRETTY_NAME=\"a\"\r\nPRETTY_NAME=\"b\"\r\n"), "a");
}

#[test]
fn os_version_takes_the_key_and_quotes_out_everywhere() {
    assert_eq!(os_version("PRETTY_NAME=\"say \"hi\" PRETTY_NAME=x\""), "say hi x");
}

#[test]
fn os_version_without_a_pretty_name_is_unknown() {
    assert_eq!(os_version(""), "Unknown OS");
    assert_eq!(os_version("NAME=x\nID=y\n"), "Unknown OS");
    assert_eq!(os_version(" PRETTY_NAME=\"indented\"\n"), "Unknown OS");
    assert_eq!(os_version("pretty_name=\"lower\"\n"), "Unknown OS");
}

#[test]
fn command_version_is_the_first_line() {
    assert_eq!(command_version(Some("rustc 1.75.0 (82e1608df 2023-12-21)\n")), "rustc 1.75.0 (82e1608df 2023-12-21)");
    assert_eq!(command_version(Some("Server version: Apache/2.4.52\nServer built: 2023\n")), "Server version: Apache/2.4.52");
    assert_eq!(command_version(Some("v18.0.0\r\nmore")), "v18.0.0");
    assert_eq!(command_version(Some("\nsecond")), "");
}

#[test]
fn command_version_without_output() {
    assert_eq!(command_version(Some("")), "Unknown");
    assert_eq!(command_version(None), "Not installed");
}

#[test]
fn processor_info_reads_the_model_name() {
    let text = "processor\t: 0\nvendor_id\t: GenuineIntel\nmodel name\t: Intel(R) Core(TM) i7-8650U CPU @ 1.90GHz\nmodel name\t: other\n";
    assert_eq!(processor_info(text), "Intel(R) Core(TM) i7-8650U CPU @ 1.90GHz");
    assert_eq!(processor_info("model name : AMD EPYC : 7B12\n"), "AMD EPYC");
    assert_eq!(processor_info("model name:\n"), "");
}

#[test]
fn processor_info_skips_lines_without_a_colon() {
    assert_eq!(processor_info("model name unknown\nmodel name : second\n"), "second");
}

#[test]
fn processor_info_without_a_model_name_is_unknown() {
    assert_eq!(processor_info(""), "Unknown Processor");
    assert_eq!(processor_info("processor : 0\nmodel\t: 142\n"), "Unknown Processor");
    assert_eq!(processor_info("model name\n"), "Unknown Processor");
}

#[test]
fn cached_info_holds_what_it_is_given() {
    let (average, highest) = cpu_speeds(&vec![1800, 2200]);
    let info = CachedInfo {
        os_version: os_version("PRETTY_NAME=\"X\""),
        apache_version: command_version(None),
        php_version: command_version(Some("PHP 8.1\n")),
        mariadb_version: command_version(Some("")),
        rust_version: String::new(),
        node_version: String::new(),
        npm_version: String::new(),
        processor: processor_info("model name : P\n"),
        total_ram: 1,
        disk_capacity: 2,
        disk_usage: 3,
        boot_time: 4,
        average_cpu_speed_mhz: average,
        max_cpu_speed_mhz: highest,
    };
    assert_eq!(info.os_version, "X");
    assert_eq!(info.apache_version, "Not installed");
    assert_eq!(info.php_version, "PHP 8.1");
    assert_eq!(info.mariadb_version, "Unknown");
    assert_eq!(info.processor, "P");
    assert_eq!(info.average_cpu_speed_mhz, 2000);
    assert_eq!(info.max_cpu_speed_mhz, 2200);
}

#[test]
fn first_line_finds_the_first_that_begins_so() {
    let lines = names(&["ID=x", "PRETTY_NAME=a", "PRETTY_NAME=b"]);
    assert_eq!(first_line(&lines, "PRETTY_NAME=", false), Some(1));
    assert_eq!(first_line(&lines, "ID", false), Some(0));
    assert_eq!(first_line(&lines, "", false), Some(0));
    assert_eq!(first_line(&lines, "NAME=", false), None);
    assert_eq!(first_line(&lines, "PRETTY_NAME=ab", false), None);
    assert_eq!(first_line(&Vec::new(), "", false), None);
}

#[test]
fn first_line_may_ask_for_a_colon() {
    let lines = names(&["model name", "model name x", "model name : y", "model name : z"]);
    assert_eq!(first_line(&lines, "model name", true), Some(2));
    assert_eq!(first_line(&lines, "model name", false), Some(0));
    assert_eq!(first_line(&names(&["model name", "other : x"]), "model name", true), None);
    assert_eq!(first_line(&names(&["a:"]), "a", true), Some(0));
    assert_eq!(first_line(&names(&[":"]), "", true), Some(0));
}

#[test]
fn version_line_is_the_first_or_unknown() {
    assert_eq!(version_line(&names(&["v1", "v2"])), "v1");
    assert_eq!(version_line(&names(&[""])), "");
    assert_eq!(version_line(&Vec::new()), "Unknown");
}

#[test]
fn holds_word_looks_into_every_text() {
    assert!(holds_word(&names(&["abc", "xmysqld"]), "mysql"));
    assert!(holds_word(&names(&["abc"]), ""));
    assert!(!holds_word(&names(&["abc", "my sql"]), "mysql"));
    assert!(!holds_word(&names(&["MYSQL"]), "mysql"));
    assert!(!holds_word(&Vec::new(), ""));
}

#[test]
fn services_among_lower_case_names() {
    let s = services_among(&names(&["apache2", "sshd"]));
    assert_eq!(s.len(), 2);
    assert_eq!((s[0].name.as_str(), s[0].running), ("Apache2", true));
    assert_eq!((s[1].name.as_str(), s[1].running), ("MariaDB", false));
    let t = services_among(&names(&["mariadbd"]));
    assert_eq!((t[0].running, t[1].running), (false, true));
    let u = services_among(&names(&["mysqld", "x-apache2-y"]));
    assert_eq!((u[0].running, u[1].running), (true, true));
    // Case is the caller's matter here.
    let v = services_among(&names(&["Apache2", "MySQL"]));
    assert_eq!((v[0].running, v[1].running), (false, false));
}

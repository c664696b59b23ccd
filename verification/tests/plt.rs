use pwntools::elf::{Contents, RelaEntry, Section, SymbolEntry};
use pwntools::plt::{
    ObservationCell, Reply, Request, StubSearch, PAGE_SIZE, PLT_ENTRY_SIZE, PROBE_INSTRUCTIONS,
    PROBE_TIMEOUT,
};
use pwntools::pwn::{Pwn, ResolveError};

fn part(name: &str, address: u64, link: u32, contents: Contents) -> Section {
    Section {
        name: name.to_string(),
        address,
        link,
        contents,
    }
}

/// `.rela.plt` binds `printf` to the slot 0x404018; `.plt` holds two stubs
/// of sixteen bytes, at 0x401020 and 0x401030.
fn image_with_stubs(plt: Option<Contents>) -> Pwn {
    let mut sections = vec![
        part(
            ".dynsym",
            0x4003c0,
            0,
            Contents::Symbols(vec![
                SymbolEntry {
                    name: None,
                    value: 0,
                },
                SymbolEntry {
                    name: Some("printf".to_string()),
                    value: 0,
                },
            ]),
        ),
        part(
            ".rela.plt",
            0x400500,
            0,
            Contents::RelaSymbols(vec![RelaEntry {
                symbol_index: 1,
                offset: 0x404018,
            }]),
        ),
    ];
    if let Some(contents) = plt {
        sections.push(part(".plt", 0x401020, 0, contents));
    }
    Pwn::new(sections)
}

fn two_stubs() -> Vec<u8> {
    (0u8..32).collect()
}

/// Drives a search to its end with an emulator that is perfect in setup
/// and whose runs leave `observe(pc)` in the cell. Gives the result and the
/// addresses that were run, in order.
fn drive(search: &mut StubSearch, observe: &dyn Fn(u64) -> Option<u64>) -> (Result<Option<u64>, ResolveError>, Vec<u64>) {
    let mut runs = Vec::new();
    let mut request = search.request();
    loop {
        let reply = match request {
            Request::MapMemory { .. } => Reply::Done,
            Request::WriteCode { .. } => Reply::Done,
            Request::ReadBack { len, .. } => {
                assert_eq!(len, search.code().len());
                Reply::Bytes(search.code().to_vec())
            }
            Request::InstallHook => Reply::Done,
            Request::Probe { pc, .. } => {
                runs.push(pc);
                Reply::Observed(observe(pc))
            }
            Request::Finish { outcome } => return (outcome, runs),
        };
        request = search.step(reply);
    }
}

fn search_from(target: u64, base: u64, code: &[u8]) -> StubSearch<'_> {
    match StubSearch::new(target, base, code) {
        Ok(Some(search)) => search,
        other => panic!("no search: {:?}", other.map(|found| found.is_some())),
    }
}

#[test]
fn constants_are_the_documented_ones() {
    assert_eq!(PAGE_SIZE, 0x1000);
    assert_eq!(PLT_ENTRY_SIZE, 16);
    assert_eq!(PROBE_TIMEOUT, 100);
    assert_eq!(PROBE_INSTRUCTIONS, 5);
}

#[test]
fn plt_without_got_slot_is_absent() {
    let pwn = image_with_stubs(Some(Contents::Raw(two_stubs())));
    assert!(matches!(pwn.plt("system"), Ok(None)));
}

#[test]
fn plt_without_got_slot_is_absent_whatever_plt_holds() {
    let pwn = image_with_stubs(Some(Contents::Other));
    assert!(matches!(pwn.plt("system"), Ok(None)));
}

#[test]
fn plt_without_plt_section_is_absent() {
    let pwn = image_with_stubs(None);
    assert_eq!(pwn.got("printf"), Ok(Some(0x404018)));
    assert!(matches!(pwn.plt("printf"), Ok(None)));
}

#[test]
fn plt_with_empty_plt_section_is_absent() {
    let pwn = image_with_stubs(Some(Contents::Raw(vec![])));
    assert!(matches!(pwn.plt("printf"), Ok(None)));
}

#[test]
fn plt_with_a_plt_of_another_kind_is_malformed() {
    let pwn = image_with_stubs(Some(Contents::Symbols(vec![])));
    assert!(matches!(pwn.plt("printf"), Err(ResolveError::Malformed)));
}

#[test]
fn plt_passes_on_a_failure_of_got() {
    let pwn = Pwn::new(vec![
        part(".rela.plt", 0, 0, Contents::Raw(vec![0; 24])),
        part(".plt", 0x401020, 0, Contents::Raw(two_stubs())),
    ]);
    assert!(matches!(pwn.plt("printf"), Err(ResolveError::Malformed)));
    let bare = Pwn::new(vec![part(".rela.plt", 0, 0, Contents::Raw(vec![0; 24]))]);
    assert!(matches!(bare.plt("printf"), Err(ResolveError::Malformed)));
}

#[test]
fn plt_with_code_at_the_top_of_the_address_space_fails_setup() {
    let pwn = Pwn::new(vec![
        part(
            ".dynsym",
            0,
            0,
            Contents::Symbols(vec![SymbolEntry {
                name: Some("printf".to_string()),
                value: 0,
            }]),
        ),
        part(
            ".rela.plt",
            0,
            0,
            Contents::RelaSymbols(vec![RelaEntry {
                symbol_index: 0,
                offset: 0x404018,
            }]),
        ),
        part(".plt", u64::MAX - 15, 0, Contents::Raw(two_stubs())),
    ]);
    assert!(matches!(pwn.plt("printf"), Err(ResolveError::EmulationSetup)));
}

#[test]
fn plt_prepares_the_search_for_the_got_slot() {
    let pwn = image_with_stubs(Some(Contents::Raw(two_stubs())));
    let search = pwn.plt("printf").unwrap().unwrap();
    assert_eq!(search.target(), 0x404018);
    assert_eq!(search.code(), &two_stubs()[..]);
    assert_eq!(
        search.request(),
        Request::MapMemory {
            start: 0x401000,
            size: 0x1000
        }
    );
}

#[test]
fn plt_finds_the_second_stub() {
    let pwn = image_with_stubs(Some(Contents::Raw(two_stubs())));
    assert_eq!(pwn.got("printf"), Ok(Some(0x404018)));
    let mut search = pwn.plt("printf").unwrap().unwrap();
    let (found, runs) = drive(&mut search, &|pc| match pc {
        0x401020 => Some(0x404010),
        0x401030 => Some(0x404018),
        _ => None,
    });
    assert_eq!(found, Ok(Some(0x401030)));
    assert_eq!(runs, vec![0x401020, 0x401030]);
}

#[test]
fn plt_result_is_a_run_that_reached_the_slot() {
    let pwn = image_with_stubs(Some(Contents::Raw(two_stubs())));
    let slot = pwn.got("printf").unwrap().unwrap();
    let observe = |pc: u64| match pc {
        0x401020 => Some(0x404010),
        0x401028 => Some(0x404018),
        0x401030 => Some(0x404018),
        _ => None,
    };
    let mut search = pwn.plt("printf").unwrap().unwrap();
    let (found, _) = drive(&mut search, &observe);
    let address = found.unwrap().unwrap();
    assert_eq!(address, 0x401030);
    assert_eq!(observe(address), Some(slot));
}

#[test]
fn plt_search_is_the_same_every_time() {
    let pwn = image_with_stubs(Some(Contents::Raw(two_stubs())));
    let observe = |pc: u64| if pc == 0x401030 { Some(0x404018) } else { None };
    let mut first = pwn.plt("printf").unwrap().unwrap();
    let mut second = pwn.plt("printf").unwrap().unwrap();
    assert_eq!(drive(&mut first, &observe), drive(&mut second, &observe));
    assert_eq!(drive(&mut first, &observe).0, Ok(Some(0x401030)));
}

#[test]
fn search_without_code_is_no_search() {
    assert!(matches!(StubSearch::new(0x404018, 0x401020, &[]), Ok(None)));
    assert!(matches!(StubSearch::new(0x404018, u64::MAX, &[]), Ok(None)));
}

#[test]
fn search_that_cannot_be_mapped_fails_setup() {
    assert!(matches!(
        StubSearch::new(1, u64::MAX, &[0x90]),
        Err(ResolveError::EmulationSetup)
    ));
    assert!(matches!(
        StubSearch::new(1, u64::MAX - 0xfff, &[0x90]),
        Err(ResolveError::EmulationSetup)
    ));
    assert!(matches!(
        StubSearch::new(1, 0xffff_ffff_ffff_e000, &[0x90; 0x1001]),
        Err(ResolveError::EmulationSetup)
    ));
}

#[test]
fn search_in_the_last_page_that_can_be_mapped_is_accepted() {
    let code = [0x90u8; 0x1000];
    let search = search_from(1, 0xffff_ffff_ffff_e000, &code);
    assert_eq!(
        search.request(),
        Request::MapMemory {
            start: 0xffff_ffff_ffff_e000,
            size: 0x1000
        }
    );
    let last_byte = search_from(1, u64::MAX - 0x1000, &code[..1]);
    assert_eq!(
        last_byte.request(),
        Request::MapMemory {
            start: 0xffff_ffff_ffff_e000,
            size: 0x1000
        }
    );
}

#[test]
fn mapping_covers_the_code_in_whole_pages() {
    let code = [0u8; 0x20];
    assert_eq!(
        search_from(0, 0x401020, &code).request(),
        Request::MapMemory {
            start: 0x401000,
            size: 0x1000
        }
    );
    assert_eq!(
        search_from(0, 0x401ff0, &code).request(),
        Request::MapMemory {
            start: 0x401000,
            size: 0x2000
        }
    );
    assert_eq!(
        search_from(0, 0x401fe0, &code).request(),
        Request::MapMemory {
            start: 0x401000,
            size: 0x1000
        }
    );
    assert_eq!(
        search_from(0, 0, &[0u8; 1]).request(),
        Request::MapMemory {
            start: 0,
            size: 0x1000
        }
    );
    assert_eq!(
        search_from(0, 0x2000, &[0u8; 0x1001]).request(),
        Request::MapMemory {
            start: 0x2000,
            size: 0x2000
        }
    );
}

#[test]
fn setup_goes_map_write_read_back_hook() {
    let code = [1u8, 2, 3, 4, 5];
    let mut search = search_from(0x404018, 0x401020, &code);
    assert_eq!(
        search.request(),
        Request::MapMemory {
            start: 0x401000,
            size: 0x1000
        }
    );
    assert_eq!(
        search.step(Reply::Done),
        Request::WriteCode { address: 0x401020 }
    );
    assert_eq!(
        search.step(Reply::Done),
        Request::ReadBack {
            address: 0x401020,
            len: 5
        }
    );
    assert_eq!(search.step(Reply::Bytes(code.to_vec())), Request::InstallHook);
    assert_eq!(
        search.step(Reply::Done),
        Request::Probe {
            pc: 0x401020,
            until: 0x401025,
            timeout: 100,
            count: 5
        }
    );
    assert_eq!(search.request(), search.request());
}

#[test]
fn probes_go_entry_by_entry_to_the_end_of_the_code() {
    let code = [0u8; 33];
    let mut search = search_from(0x404018, 0x401020, &code);
    let (found, runs) = drive(&mut search, &|_| None);
    assert_eq!(found, Ok(None));
    assert_eq!(runs, vec![0x401020, 0x401030, 0x401040]);
}

#[test]
fn probes_of_code_of_one_entry_run_once() {
    let code = [0u8; 16];
    let mut search = search_from(0x404018, 0x401020, &code);
    let (found, runs) = drive(&mut search, &|_| Some(0x404010));
    assert_eq!(found, Ok(None));
    assert_eq!(runs, vec![0x401020]);
}

#[test]
fn probe_bounds_are_the_same_for_every_candidate() {
    let code = [0u8; 32];
    let mut search = search_from(0x404018, 0x401020, &code);
    search.step(Reply::Done);
    search.step(Reply::Done);
    search.step(Reply::Bytes(code.to_vec()));
    let first = search.step(Reply::Done);
    let second = search.step(Reply::Observed(None));
    assert_eq!(
        first,
        Request::Probe {
            pc: 0x401020,
            until: 0x401040,
            timeout: PROBE_TIMEOUT,
            count: PROBE_INSTRUCTIONS
        }
    );
    assert_eq!(
        second,
        Request::Probe {
            pc: 0x401030,
            until: 0x401040,
            timeout: PROBE_TIMEOUT,
            count: PROBE_INSTRUCTIONS
        }
    );
}

#[test]
fn first_candidate_that_reaches_the_slot_wins() {
    let code = [0u8; 48];
    let mut search = search_from(0x404018, 0x401020, &code);
    let (found, runs) = drive(&mut search, &|_| Some(0x404018));
    assert_eq!(found, Ok(Some(0x401020)));
    assert_eq!(runs, vec![0x401020]);
}

#[test]
fn last_candidate_can_be_the_one() {
    let code = [0u8; 40];
    let mut search = search_from(0x404018, 0x401020, &code);
    let (found, runs) = drive(&mut search, &|pc| {
        if pc == 0x401040 {
            Some(0x404018)
        } else {
            Some(0x404019)
        }
    });
    assert_eq!(found, Ok(Some(0x401040)));
    assert_eq!(runs.len(), 3);
}

#[test]
fn refused_mapping_fails_setup() {
    let code = [0u8; 8];
    let mut search = search_from(0x404018, 0x401020, &code);
    assert_eq!(
        search.step(Reply::Failed),
        Request::Finish {
            outcome: Err(ResolveError::EmulationSetup)
        }
    );
}

#[test]
fn refused_write_fails_setup() {
    let code = [0u8; 8];
    let mut search = search_from(0x404018, 0x401020, &code);
    search.step(Reply::Done);
    assert_eq!(
        search.step(Reply::Failed),
        Request::Finish {
            outcome: Err(ResolveError::EmulationSetup)
        }
    );
}

#[test]
fn read_back_that_differs_fails_setup() {
    let code = [1u8, 2, 3, 4];
    for wrong in [vec![1u8, 2, 3, 5], vec![1u8, 2, 3], vec![1u8, 2, 3, 4, 0], vec![]] {
        let mut search = search_from(0x404018, 0x401020, &code);
        search.step(Reply::Done);
        search.step(Reply::Done);
        assert_eq!(
            search.step(Reply::Bytes(wrong)),
            Request::Finish {
                outcome: Err(ResolveError::EmulationSetup)
            }
        );
    }
}

#[test]
fn refused_read_back_fails_setup() {
    let code = [1u8, 2, 3, 4];
    let mut search = search_from(0x404018, 0x401020, &code);
    search.step(Reply::Done);
    search.step(Reply::Done);
    assert_eq!(
        search.step(Reply::Failed),
        Request::Finish {
            outcome: Err(ResolveError::EmulationSetup)
        }
    );
}

#[test]
fn refused_hook_fails_setup() {
    let code = [1u8, 2, 3, 4];
    let mut search = search_from(0x404018, 0x401020, &code);
    search.step(Reply::Done);
    search.step(Reply::Done);
    search.step(Reply::Bytes(code.to_vec()));
    assert_eq!(
        search.step(Reply::Failed),
        Request::Finish {
            outcome: Err(ResolveError::EmulationSetup)
        }
    );
}

#[test]
fn reply_that_answers_another_request_fails_the_search() {
    let code = [1u8, 2, 3, 4];
    let mut search = search_from(0x404018, 0x401020, &code);
    assert_eq!(
        search.step(Reply::Observed(Some(0x404018))),
        Request::Finish {
            outcome: Err(ResolveError::EmulationSetup)
        }
    );
    let mut probing = search_from(0x404018, 0x401020, &code);
    probing.step(Reply::Done);
    probing.step(Reply::Done);
    probing.step(Reply::Bytes(code.to_vec()));
    probing.step(Reply::Done);
    assert_eq!(
        probing.step(Reply::Done),
        Request::Finish {
            outcome: Err(ResolveError::EmulationSetup)
        }
    );
}

#[test]
fn finished_search_stays_finished() {
    let code = [0u8; 4];
    let mut search = search_from(0x404018, 0x401020, &code);
    let (found, _) = drive(&mut search, &|_| Some(0x404018));
    assert_eq!(found, Ok(Some(0x401020)));
    for reply in [
        Reply::Done,
        Reply::Failed,
        Reply::Bytes(vec![1]),
        Reply::Observed(None),
    ] {
        assert_eq!(
            search.step(reply),
            Request::Finish {
                outcome: Ok(Some(0x401020))
            }
        );
    }
}

#[test]
fn cell_keeps_the_first_address() {
    let mut cell = ObservationCell::new();
    assert_eq!(cell.get(), None);
    cell.record(0x404018);
    cell.record(0x404020);
    assert_eq!(cell.get(), Some(0x404018));
}

#[test]
fn cell_is_empty_after_clear() {
    let mut cell = ObservationCell::new();
    cell.record(1);
    cell.clear();
    assert_eq!(cell.get(), None);
    cell.record(2);
    assert_eq!(cell.get(), Some(2));
}

#[test]
fn run_from_inside_an_entry_is_never_asked_for() {
    // The padding at the end of the first entry falls through into the
    // second one: a run from 0x40102c would reach the slot too.
    let pwn = image_with_stubs(Some(Contents::Raw(two_stubs())));
    let mut search = pwn.plt("printf").unwrap().unwrap();
    let (found, runs) = drive(&mut search, &|pc| match pc {
        0x401020 => Some(0x404008),
        0x40102c | 0x401030 => Some(0x404018),
        _ => None,
    });
    assert_eq!(found, Ok(Some(0x401030)));
    assert_eq!(runs, vec![0x401020, 0x401030]);
}

#[test]
fn stubs_of_a_real_plt_are_found_at_their_entries() {
    // The resolver entry and one stub, as a linker lays them out.
    let code: Vec<u8> = vec![
        0xff, 0x35, 0xe2, 0x2f, 0x00, 0x00, 0xff, 0x25, 0xe4, 0x2f, 0x00, 0x00, 0x0f, 0x1f, 0x40,
        0x00, 0xff, 0x25, 0xe2, 0x2f, 0x00, 0x00, 0x68, 0x00, 0x00, 0x00, 0x00, 0xe9, 0xe0, 0xff,
        0xff, 0xff,
    ];
    let pwn = image_with_stubs(Some(Contents::Raw(code)));
    assert_eq!(pwn.got("printf"), Ok(Some(0x404018)));
    let mut search = pwn.plt("printf").unwrap().unwrap();
    let (found, runs) = drive(&mut search, &|pc| match pc {
        0x401020 => Some(0x404008),
        0x40102c | 0x401030 => Some(0x404018),
        _ => None,
    });
    assert_eq!(found, Ok(Some(0x401030)));
    assert_eq!(runs, vec![0x401020, 0x401030]);
}

#[test]
fn code_shorter_than_an_entry_holds_one_candidate() {
    let code = [0u8; 5];
    let mut search = search_from(0x404018, 0x401020, &code);
    let (found, runs) = drive(&mut search, &|_| Some(0x404018));
    assert_eq!(found, Ok(Some(0x401020)));
    assert_eq!(runs, vec![0x401020]);
}

#[test]
fn every_run_starts_a_whole_number_of_entries_into_the_code() {
    let code = [0u8; 100];
    let mut search = search_from(0x404018, 0x401024, &code);
    let (found, runs) = drive(&mut search, &|_| None);
    assert_eq!(found, Ok(None));
    assert_eq!(
        runs,
        vec![0x401024, 0x401034, 0x401044, 0x401054, 0x401064, 0x401074, 0x401084]
    );
    assert!(runs.iter().all(|pc| (pc - 0x401024) % PLT_ENTRY_SIZE == 0));
}

use rustaria::atlas::{alternating_step, export_layout, mip_sizes, pack_images, square_step, PackStep};
use rustaria::block::BlockState;
use rustaria::network::{send_outcome, ClientNetwork, NetworkError};
use rustaria::perf::PerfDisplayerHandler;
use rustaria::tile::TileImagePos;

#[test]
fn tile_cells() {
    assert_eq!(TileImagePos::Solid.get_tex_cell(), (1, 2));
    assert_eq!(TileImagePos::Horizontal.get_tex_cell(), (1, 3));
    assert_eq!(TileImagePos::UpLeft.get_tex_cell(), (0, 0));
    assert_eq!(TileImagePos::RightFlat.get_tex_cell(), (3, 3));
    assert_eq!(TileImagePos::LeftEnd.get_tex_cell(), (2, 2));
}

#[test]
fn perf_reports_after_a_second() {
    let mut perf = PerfDisplayerHandler::new();
    perf.frame_time = 40_000_000;
    perf.frame_count = 4;
    perf.update_time = 3_500_000;
    perf.update_count = 2;
    assert!(perf.tick(1_000_000_000).is_none());
    assert_eq!(perf.frame_count, 4);
    let report = perf.tick(1_000_000_001).unwrap();
    assert_eq!(report.frame_count, 4);
    assert_eq!(report.frame_millis, 40);
    assert_eq!(report.update_count, 2);
    assert_eq!(report.update_millis, 3);
    assert_eq!(perf.frame_count, 0);
    assert_eq!(perf.frame_time, 0);
    assert_eq!(perf.update_count, 0);
    assert_eq!(perf.update_time, 0);
}

#[test]
fn small_images_fit_first_bin() {
    let (placements, w, h) = pack_images(&vec![(16, 16), (32, 8)]).unwrap();
    assert_eq!((w, h), (128, 128));
    assert_eq!(placements.len(), 2);
    assert_eq!(placements[0].0, 0);
    assert_eq!(placements[1].0, 1);
    assert_eq!((placements[0].3, placements[0].4), (16, 16));
    assert_eq!((placements[1].3, placements[1].4), (32, 8));
}

#[test]
fn wide_image_grows_bin_alternately() {
    let (_, w, h) = pack_images(&vec![(300, 10)]).unwrap();
    assert_eq!((w, h), (512, 512));
    let (_, w, h) = pack_images(&vec![(10, 200)]).unwrap();
    assert_eq!((w, h), (128, 256));
}

#[test]
fn placements_do_not_overlap() {
    let sizes = vec![(20, 30), (50, 10), (16, 16), (64, 64), (5, 90)];
    let (p, w, h) = pack_images(&sizes).unwrap();
    for a in &p {
        assert!(a.1 + a.3 <= w && a.2 + a.4 <= h);
        for b in &p {
            if a.0 < b.0 {
                let apart = a.1 + a.3 <= b.1 || b.1 + b.3 <= a.1 || a.2 + a.4 <= b.2 || b.2 + b.4 <= a.2;
                assert!(apart);
            }
        }
    }
}

#[test]
fn opengl_atlas_is_square() {
    let layout = export_layout(&vec![(10, 10)]).unwrap();
    assert_eq!((layout.width, layout.height), (16, 16));
    let layout = export_layout(&vec![(17, 3)]).unwrap();
    assert_eq!((layout.width, layout.height), (32, 32));
    let layout = export_layout(&vec![(32, 32), (32, 32)]).unwrap();
    assert_eq!((layout.width, layout.height), (64, 64));
}

#[test]
fn mipmap_sizes_halve() {
    assert_eq!(mip_sizes(64, 32, 4), vec![(64, 32), (32, 16), (16, 8), (8, 4)]);
    assert!(mip_sizes(64, 32, 0).is_empty());
    assert_eq!(mip_sizes(5, 3, 3), vec![(5, 3), (2, 1), (1, 0)]);
}

#[test]
fn client_network_sends_and_polls() {
    let (to_server, from_client) = crossbeam::channel::unbounded::<u32>();
    let (to_client, from_server) = crossbeam::channel::unbounded::<String>();
    let net = ClientNetwork::new(to_server, from_server);
    assert!(net.send(7).is_ok());
    assert_eq!(from_client.try_recv(), Ok(7));
    to_client.send("a".to_string()).unwrap();
    to_client.send("b".to_string()).unwrap();
    assert_eq!(net.poll(), vec!["a".to_string(), "b".to_string()]);
    assert!(net.poll().is_empty());
    drop(from_client);
    assert!(matches!(net.send(8), Err(NetworkError::Disconnected(8))));
}

#[test]
fn block_state_holds_name() {
    let s = BlockState { name: "open".to_string() };
    assert_eq!(s.clone().name, "open");
}

fn step_view(s: PackStep) -> String {
    match s {
        PackStep::Packed(p, w, h) => format!("packed {} in {w}x{h}", p.len()),
        PackStep::Grow(w, h) => format!("grow to {w}x{h}"),
        PackStep::GiveUp => "give up".to_string(),
    }
}

#[test]
fn wgpu_atlas_doubles_the_smaller_side() {
    assert_eq!(step_view(alternating_step(None, 128, 128)), "grow to 128x256");
    assert_eq!(step_view(alternating_step(None, 128, 256)), "grow to 256x256");
    assert_eq!(step_view(alternating_step(Some(vec![(0, 0, 0, 4, 4)]), 256, 128)), "packed 1 in 256x128");
    assert_eq!(step_view(alternating_step(None, 1 << 31, 1 << 31)), "give up");
    assert_eq!(step_view(alternating_step(None, 1 << 30, 1 << 31)), "grow to 2147483648x2147483648");
}

#[test]
fn opengl_atlas_doubles_both_sides() {
    assert_eq!(step_view(square_step(None, 16, 16)), "grow to 32x32");
    assert_eq!(step_view(square_step(Some(vec![]), 64, 64)), "packed 0 in 64x64");
    assert_eq!(step_view(square_step(None, 1 << 31, 1 << 31)), "give up");
}

#[test]
fn refused_send_means_disconnected() {
    assert!(matches!(send_outcome::<u8>(Ok(())), Ok(())));
    assert!(matches!(send_outcome(Err(5u8)), Err(NetworkError::Disconnected(5))));
}

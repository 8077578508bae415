use cinematography_ir::grid::{fold_to_ascii, initial, CharGrid};
use cinematography_ir::view::{animation_page, markdown_document, still_page, Anchor, Encoding, LineStyle, MarkdownCell, MediaType};

#[test]
fn blank_grid_is_at_least_eight_by_one() {
    let g = CharGrid::new(3, 0);
    assert_eq!(g.columns(), 8);
    assert_eq!(g.row_count(), 1);
    assert_eq!(g.render(), "\n");
}

#[test]
fn shallow_line_picks_dashes() {
    let mut g = CharGrid::new(10, 4);
    g.line(0, 0, 9, 3, None, LineStyle::Solid);
    assert_eq!(g.render(), "--\n  ---\n     ---\n        --\n");
}

#[test]
fn dashed_line_skips_every_third_step() {
    let mut g = CharGrid::new(10, 4);
    g.line(9, 0, 0, 3, None, LineStyle::Dashed);
    assert_eq!(g.render(), "        --\n     --\n  --\n-\n");
}

#[test]
fn dotted_steep_line_inks_every_other_step() {
    let mut g = CharGrid::new(8, 6);
    g.line(2, 0, 4, 5, None, LineStyle::Dotted);
    assert_eq!(g.render(), "  |\n\n   |\n\n    |\n\n");
}

#[test]
fn diagonal_line_uses_backslash() {
    let mut g = CharGrid::new(8, 6);
    g.line(0, 0, 5, 3, None, LineStyle::Solid);
    assert_eq!(g.render(), "\\\n \\\\\n   \\\\\n     \\\n\n\n");
}

#[test]
fn line_is_clipped_to_the_grid() {
    let mut g = CharGrid::new(10, 3);
    g.line(-5, 1, 20, 1, Some('='), LineStyle::Solid);
    assert_eq!(g.render(), "\n==========\n\n");
}

#[test]
fn rect_outline_solid_and_dashed() {
    let mut g = CharGrid::new(12, 5);
    g.rect(1, 1, 8, 3, LineStyle::Solid);
    assert_eq!(g.render(), "\n +------+\n |      |\n +------+\n\n");
    let mut d = CharGrid::new(12, 5);
    d.rect(1, 1, 8, 3, LineStyle::Dashed);
    assert_eq!(d.render(), "\n +- -- -+\n |      |\n +- -- -+\n\n");
}

#[test]
fn flat_rect_is_a_hash() {
    let mut g = CharGrid::new(12, 5);
    g.rect(3, 2, 3, 4, LineStyle::Solid);
    assert_eq!(g.render(), "\n\n   #\n\n\n");
}

#[test]
fn fill_sets_the_clipped_box() {
    let mut g = CharGrid::new(8, 3);
    g.fill(2, 0, 4, 1, 'a');
    g.fill(-3, 2, 1, 9, 'b');
    assert_eq!(g.render(), "  aaa\n  aaa\nbb\n");
}

#[test]
fn text_anchors_and_folding() {
    let mut g = CharGrid::new(12, 2);
    g.text(6, 0, "Ava\u{2192}B\u{b0}", Anchor::Middle);
    g.text(11, 1, "end", Anchor::End);
    g.text(-1, 1, "xyz", Anchor::Start);
    assert_eq!(g.render(), "   Ava>Bo\nyz       end\n");
}

#[test]
fn put_off_grid_changes_nothing() {
    let mut g = CharGrid::new(8, 2);
    g.put(8, 0, 'x');
    g.put(-1, 1, 'x');
    g.put(0, 2, 'x');
    assert_eq!(g.render(), "\n\n");
    g.put(7, 1, 'x');
    assert_eq!(g.render(), "\n       x\n");
}

#[test]
fn initials_and_ascii_folding() {
    assert_eq!(initial(&Some("ava".to_string()), '@'), 'A');
    assert_eq!(initial(&Some("7th".to_string()), '@'), '7');
    assert_eq!(initial(&Some("\u{e9}lan".to_string()), '#'), '#');
    assert_eq!(initial(&Some(String::new()), 'V'), 'V');
    assert_eq!(initial(&None, '*'), '*');
    assert_eq!(fold_to_ascii('\u{2014}'), '-');
    assert_eq!(fold_to_ascii('\u{2190}'), '<');
    assert_eq!(fold_to_ascii('\u{263a}'), '?');
    assert_eq!(fold_to_ascii('q'), 'q');
}

#[test]
fn encodings_name_their_files_and_media() {
    assert_eq!(Encoding::Ascii { columns: 72 }.extension(), "txt");
    assert_eq!(Encoding::Markdown { columns: 72 }.extension(), "md");
    assert_eq!(Encoding::Png.extension(), "png");
    assert_eq!(Encoding::Svg.media_type(), MediaType::Svg);
    assert_eq!(Encoding::Ascii { columns: 40 }.media_type(), MediaType::Text);
    assert_eq!(Encoding::Html.media_type(), MediaType::Html);
    assert!(!Encoding::Png.media_type().is_text());
}

#[test]
fn markdown_document_sections() {
    let mut g = CharGrid::new(8, 1);
    g.text(0, 0, "A", Anchor::Start);
    let cells = vec![
        MarkdownCell { label: "s1".to_string(), scene_frame: 0, ascii: g.render(), prompt: Some("Wide shot.".to_string()) },
        MarkdownCell { label: "s2".to_string(), scene_frame: 48, ascii: "\n".to_string(), prompt: None },
    ];
    let question = Some("Will she stay?".to_string());
    assert_eq!(
        markdown_document("dialogue", "Kitchen", &question, true, &cells),
        "# dialogue \u{2014} Kitchen\n\nWill she stay?\n\n## s1 \u{b7} f0\n\n```text\nA\n```\n\nWide shot.\n\n## s2 \u{b7} f48\n\n```text\n\n```\n\n"
    );
    assert_eq!(
        markdown_document("dialogue", "Kitchen", &question, false, &cells),
        "# dialogue \u{2014} Kitchen\n\n## s1 \u{b7} f0\n\n```text\nA\n```\n\n## s2 \u{b7} f48\n\n```text\n\n```\n\n"
    );
}

#[test]
fn still_page_escapes_the_title_and_embeds_the_svg() {
    assert_eq!(still_page("A<b> & \"c\"", 640, "<svg/>"), "<!doctype html>\n<html lang=\"en\"><head><meta charset=\"utf-8\"><title>A&lt;b&gt; &amp; &quot;c&quot;</title><style>body{margin:0;background:#f4f4f6;display:flex;justify-content:center;align-items:center;min-height:100vh}main{width:min(100vw,640px)}svg{width:100%;height:auto;display:block;background:#fff}</style></head><body><main data-composition-id=\"A&lt;b&gt; &amp; &quot;c&quot;\"><svg/></main></body></html>\n");
}

#[test]
fn animation_page_plays_frames_on_scene_time() {
    let frames = vec![
        ("0".to_string(), "<svg>a</svg>".to_string()),
        ("0.5".to_string(), "<svg>b</svg>".to_string()),
    ];
    assert_eq!(animation_page("Scene", Some(720), "2", "12", &frames), "<!doctype html>\n<html lang=\"en\"><head><meta charset=\"utf-8\"><title>Scene</title><style>body{margin:0;background:#f4f4f6;display:flex;justify-content:center;align-items:center;min-height:100vh}main{width:min(100vw,720px);position:relative}.frame{display:none}.frame.active{display:block}svg{width:100%;height:auto;display:block;background:#fff}</style></head><body><main data-composition-id=\"Scene\" data-duration=\"2\" data-fps=\"12\" data-frames=\"2\"><div class=\"frame active\" data-frame=\"0\" data-t=\"0\"><svg>a</svg></div><div class=\"frame\" data-frame=\"1\" data-t=\"0.5\"><svg>b</svg></div></main><script>(function(){var frames=Array.prototype.slice.call(document.querySelectorAll('.frame'));var times=[0,0.5];var duration=2;var count=frames.length;var current=0;var timer=null;function frameAt(t){var i=0;for(var k=0;k<times.length;k++){if(times[k]<=t+1e-6)i=k;else break;}return i;}function show(i){i=Math.max(0,Math.min(count-1,i));if(i===current)return;frames[current].classList.remove('active');frames[i].classList.add('active');current=i;}function stop(){if(timer!==null){clearInterval(timer);timer=null;}}window.__insightVideo={duration:duration,ready:true,seek:function(t){stop();show(frameAt(t));}};window.__cineFrames={count:count,times:times,duration:duration,show:show,stop:stop,frameAt:frameAt};var started=Date.now();timer=setInterval(function(){var t=((Date.now()-started)/1000)%Math.max(duration,1e-3);show(frameAt(t));},40);})();</script></body></html>\n");
    assert_eq!(animation_page("Empty", None, "0", "24", &Vec::new()), "<!doctype html>\n<html lang=\"en\"><head><meta charset=\"utf-8\"><title>Empty</title><style>body{margin:0;background:#f4f4f6;display:flex;justify-content:center;align-items:center;min-height:100vh}main{width:min(100vw,800px);position:relative}.frame{display:none}.frame.active{display:block}svg{width:100%;height:auto;display:block;background:#fff}</style></head><body><main data-composition-id=\"Empty\" data-duration=\"0\" data-fps=\"24\" data-frames=\"1\"></main><script>(function(){var frames=Array.prototype.slice.call(document.querySelectorAll('.frame'));var times=[];var duration=0;var count=frames.length;var current=0;var timer=null;function frameAt(t){var i=0;for(var k=0;k<times.length;k++){if(times[k]<=t+1e-6)i=k;else break;}return i;}function show(i){i=Math.max(0,Math.min(count-1,i));if(i===current)return;frames[current].classList.remove('active');frames[i].classList.add('active');current=i;}function stop(){if(timer!==null){clearInterval(timer);timer=null;}}window.__insightVideo={duration:duration,ready:true,seek:function(t){stop();show(frameAt(t));}};window.__cineFrames={count:count,times:times,duration:duration,show:show,stop:stop,frameAt:frameAt};var started=Date.now();timer=setInterval(function(){var t=((Date.now()-started)/1000)%Math.max(duration,1e-3);show(frameAt(t));},40);})();</script></body></html>\n");
}

//! The gallery page. Rendering is pure string building and is verified:
//! the page is the fixed header, one block per record in the given order,
//! and the fixed footer. Serving the page is the caller's concern.
use crate::models::VideoInfo;
use vstd::prelude::*;

verus! {

/// The fixed page head, styles included.
pub open spec fn page_header() -> Seq<char> {
    "\n    <!DOCTYPE html>\n    <html>\n    <head>\n        <title>YliProxy</title>\n        <style>\n            body { font-family: Arial, sans-serif; margin: 0; padding: 20px; background-color: #f5f5f5; }\n            .video-grid { display: grid; grid-template-columns: repeat(auto-fill, minmax(300px, 1fr)); gap: 20px; }\n            .video-item { background-color: white; border-radius: 8px; overflow: hidden; box-shadow: 0 2px 4px rgba(0,0,0,0.1); }\n            .thumbnail { width: 100%; height: 180px; object-fit: cover; background-color: #ccc; }\n            .video-info { padding: 10px; }\n            h1 { color: #333; }\n            a { text-decoration: none; color: inherit; }\n            .video-title { margin: 5px 0; color: #333; }\n        </style>\n    </head>\n    <body>\n        <h1>YliProxy</h1>\n        <div class=\"video-grid\">\n    "@
}

/// The fixed page tail.
pub open spec fn page_footer() -> Seq<char> {
    "\n        </div>\n    </body>\n    </html>\n    "@
}

/// The gallery block of one record: a link to the served file, its
/// thumbnail image, and its filename as the title.
pub open spec fn item_html(v: VideoInfo) -> Seq<char> {
    "\n            <div class=\"video-item\">\n                <a href=\"/"@ + v.filename@ + "\">\n                    <img class=\"thumbnail\" src=\"/thumbs/"@ + v.id@ + ".jpg\" alt=\""@ + v.filename@ + "\" onerror=\"this.style.backgroundColor='#ccc';\">\n                    <div class=\"video-info\">\n                        <h3 class=\"video-title\">"@ + v.filename@
        + "</h3>\n                    </div>\n                </a>\n            </div>\n        "@
}

/// The blocks of all records, in the given order.
pub open spec fn items_html(vs: Seq<VideoInfo>) -> Seq<char>
    decreases vs.len(),
{
    if vs.len() == 0 {
        Seq::empty()
    } else {
        items_html(vs.drop_last()) + item_html(vs.last())
    }
}

/// The whole gallery page for the given records.
pub open spec fn index_html(vs: Seq<VideoInfo>) -> Seq<char> {
    page_header() + items_html(vs) + page_footer()
}

/// Renders the gallery page: the fixed header, one block per record in the
/// order handed in (the caller passes the newest-first listing), and the
/// fixed footer.
pub fn render_index_html(videos: &Vec<VideoInfo>) -> (r: String)
    ensures
        r@ == index_html(videos@),
{
    let mut out = String::from_str(
        "\n    <!DOCTYPE html>\n    <html>\n    <head>\n        <title>YliProxy</title>\n        <style>\n            body { font-family: Arial, sans-serif; margin: 0; padding: 20px; background-color: #f5f5f5; }\n            .video-grid { display: grid; grid-template-columns: repeat(auto-fill, minmax(300px, 1fr)); gap: 20px; }\n            .video-item { background-color: white; border-radius: 8px; overflow: hidden; box-shadow: 0 2px 4px rgba(0,0,0,0.1); }\n            .thumbnail { width: 100%; height: 180px; object-fit: cover; background-color: #ccc; }\n            .video-info { padding: 10px; }\n            h1 { color: #333; }\n            a { text-decoration: none; color: inherit; }\n            .video-title { margin: 5px 0; color: #333; }\n        </style>\n    </head>\n    <body>\n        <h1>YliProxy</h1>\n        <div class=\"video-grid\">\n    ",
    );
    let n = videos.len();
    proof {
        assert(videos@.take(0) =~= Seq::<VideoInfo>::empty());
        assert(out@ + items_html(videos@.take(0)) =~= page_header() + items_html(
            videos@.take(0),
        ));
    }
    let mut i: usize = 0;
    while i < n
        invariant
            i <= n,
            n == videos@.len(),
            out@ == page_header() + items_html(videos@.take(i as int)),
        decreases n - i,
    {
        proof {
            assert(videos@.take(i + 1).drop_last() =~= videos@.take(i as int));
            assert(videos@.take(i + 1).last() == videos@[i as int]);
        }
        let v = &videos[i];
        out.append("\n            <div class=\"video-item\">\n                <a href=\"/");
        out.append(v.filename.as_str());
        out.append("\">\n                    <img class=\"thumbnail\" src=\"/thumbs/");
        out.append(v.id.as_str());
        out.append(".jpg\" alt=\"");
        out.append(v.filename.as_str());
        out.append("\" onerror=\"this.style.backgroundColor='#ccc';\">\n                    <div class=\"video-info\">\n                        <h3 class=\"video-title\">");
        out.append(v.filename.as_str());
        out.append("</h3>\n                    </div>\n                </a>\n            </div>\n        ");
        proof {
            assert(out@ =~= page_header() + items_html(videos@.take(i + 1)));
        }
        i = i + 1;
    }
    proof {
        assert(videos@.take(n as int) =~= videos@);
    }
    out.append("\n        </div>\n    </body>\n    </html>\n    ");
    proof {
        assert(out@ =~= index_html(videos@));
    }
    out
}

} // verus!

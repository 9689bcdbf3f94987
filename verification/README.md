# tagbox

The verified core of TagBox, an offline file manager that keeps documents
under up to three levels of categories with tags, authors and other
metadata. The library holds the decisions the desktop front ends make, each
function with a contract proved by Verus:

- `text`, `counting`: character-level helpers (trimming, splitting lists,
  decimal numbers) and tallies of names.
- `library`, `categories`, `tree`, `hierarchy`, `statistics`, `sorting`:
  the file records, the category trees and category editor, file counts
  per category, library statistics, and ordering the file list by a column.
- `metadata`, `query`, `pdfmeta`, `pdffile`: the edit and import forms,
  search queries built from the advanced search form, metadata read out of
  PDF files, and reading a PDF's information entries, page count and first
  pages' text with lopdf.
- `session`, `view_state`, `pages`, `tasks`, `settings`, `display`,
  `menus`, `widgets`, `theme`, `logs`: what the windows and pages do on each
  event or finished task, what they show, and the log viewer.
- `paths`, `download`: file paths, dropped files, and downloads by URL.

`app/` is a small command-line program around the library: it reads PDF
files, downloads, opens and reveals files, uses the clipboard, and shows
the log, leaving every decision to the library.

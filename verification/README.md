# awsbck

Compresses a folder and uploads it to an AWS S3 bucket, once or on a cron schedule.

- `src/` is the verified library: object key sanitization and naming (`config`, `aws`), the
  cutting of an archive into the parts of a multipart upload and the progress of that upload
  (`aws`), the validation of the configuration (`config`), the naming of the temporary archive
  (`backup`), the wait before the next scheduled run (`schedule`), and small helpers (`cli`,
  `prelude`).
- `app/main.rs` is the program: command line and environment, compression, the S3 client and
  the timer loop.
- `tests/` exercises the library on concrete values.
